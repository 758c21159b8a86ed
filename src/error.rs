//! Errors of the binding: failures reported by the native interface and the
//! business errors that are surfaced to the managed runtime.
use vstd::prelude::*;

verus! {

/// Code of a business error raised when the caller lacks a permission.
pub const PERMISSION_CODE: i32 = 201;

/// Code of a business error raised when an argument is invalid.
pub const PARAMETER_CODE: i32 = 401;

/// A failed call into the native interface: which operation failed, and the
/// non-zero status it returned.
#[derive(Debug)]
pub struct AniError {
    pub operation: String,
    pub status: i32,
}

/// An application-level error with a numeric code and a message, which the
/// outermost native entry point turns into a thrown exception.
#[derive(Debug)]
pub struct BusinessError {
    pub code: i32,
    pub msg: String,
}

/// The message that goes with each business error code of the connection
/// module.
pub open spec fn business_message(code: i32) -> Seq<char> {
    if code == 201 {
        "Permission denied."@
    } else if code == 401 {
        "Parameter error."@
    } else if code == 2100001 {
        "Invalid parameter value."@
    } else if code == 2100002 {
        "Failed to connect to the service."@
    } else if code == 2100003 {
        "System internal error."@
    } else {
        "Unknown error"@
    }
}

impl AniError {
    /// The error of `operation` that returned `status`.
    pub fn new(operation: &str, status: i32) -> (r: AniError)
        ensures
            r.operation@ == operation@,
            r.status == status,
    {
        AniError { operation: String::from_str(operation), status }
    }
}

impl BusinessError {
    /// A business error with the given code and message.
    pub fn new(code: i32, msg: String) -> (r: BusinessError)
        ensures
            r.code == code,
            r.msg@ == msg@,
    {
        BusinessError { code, msg }
    }

    /// A business error whose message is a string literal.
    pub fn new_static(code: i32, msg: &str) -> (r: BusinessError)
        ensures
            r.code == code,
            r.msg@ == msg@,
    {
        BusinessError { code, msg: String::from_str(msg) }
    }

    /// The business error that reports a failed native-interface call: its
    /// code is the call's status and its message the operation's name.
    pub fn from_ani(e: AniError) -> (r: BusinessError)
        ensures
            r.code == e.status,
            r.msg@ == e.operation@,
    {
        BusinessError { code: e.status, msg: e.operation }
    }

    /// The error raised when a permission is missing.
    pub fn permission() -> (r: BusinessError)
        ensures
            r.code == PERMISSION_CODE,
            r.msg@ == business_message(PERMISSION_CODE),
    {
        proof {
            reveal_strlit("Permission denied.");
        }
        BusinessError::new_static(PERMISSION_CODE, "Permission denied.")
    }

    /// The error raised when an argument is invalid.
    pub fn parameter() -> (r: BusinessError)
        ensures
            r.code == PARAMETER_CODE,
            r.msg@ == business_message(PARAMETER_CODE),
    {
        BusinessError::new_static(PARAMETER_CODE, "Parameter error.")
    }
}

/// Maps the error code of a network service to the business error that is
/// surfaced to the managed runtime.
pub fn convert_to_business_error(code: i32) -> (r: BusinessError)
    ensures
        r.code == code,
        r.msg@ == business_message(code),
{
    if code == 201 {
        BusinessError::permission()
    } else if code == 401 {
        BusinessError::parameter()
    } else if code == 2100001 {
        BusinessError::new_static(code, "Invalid parameter value.")
    } else if code == 2100002 {
        BusinessError::new_static(code, "Failed to connect to the service.")
    } else if code == 2100003 {
        BusinessError::new_static(code, "System internal error.")
    } else {
        BusinessError::new_static(code, "Unknown error")
    }
}

/// Turns a service's status and the value it produced into a result: status
/// zero is success.
pub fn status_to_result<T>(status: i32, value: T) -> (r: Result<T, i32>)
    ensures
        status == 0 ==> r == Ok::<T, i32>(value),
        status != 0 ==> r == Err::<T, i32>(status),
{
    if status != 0 {
        Err(status)
    } else {
        Ok(value)
    }
}

} // verus!

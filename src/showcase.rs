//! Native entry points that exercise the binding from the managed side:
//! each takes what the runtime passed, already decoded, and hands back what
//! the runtime receives.
use vstd::prelude::*;

use crate::env::{AniEnv, AniRef, ManagedValue};
use crate::env::class_of;
use crate::error::{BusinessError, PARAMETER_CODE};
use crate::objects::{AniObject, GlobalRef};
use crate::typed_array::{
    ArrayBuffer, Int16Array, Int32Array, Int8Array, Uint16Array, Uint32Array, Uint8Array,
};

use std::collections::HashMap;

verus! {

/// Hands back the array it was given.
pub fn array_bool(input: Vec<bool>) -> (r: Result<Vec<bool>, BusinessError>)
    ensures
        r is Ok && r->Ok_0@ == input@,
{
    Ok(input)
}

/// Hands back the array it was given.
pub fn array_byte(input: Vec<i8>) -> (r: Result<Vec<i8>, BusinessError>)
    ensures
        r is Ok && r->Ok_0@ == input@,
{
    Ok(input)
}

/// Hands back the array it was given.
pub fn array_i16(input: Vec<i16>) -> (r: Result<Vec<i16>, BusinessError>)
    ensures
        r is Ok && r->Ok_0@ == input@,
{
    Ok(input)
}

/// Hands back the array it was given.
pub fn array_i32(input: Vec<i32>) -> (r: Result<Vec<i32>, BusinessError>)
    ensures
        r is Ok && r->Ok_0@ == input@,
{
    Ok(input)
}

/// Hands back the array it was given.
pub fn array_i64(input: Vec<i64>) -> (r: Result<Vec<i64>, BusinessError>)
    ensures
        r is Ok && r->Ok_0@ == input@,
{
    Ok(input)
}

/// Hands back the optional value it was given, absent or present.
pub fn option_bool(input: Option<bool>) -> (r: Result<Option<bool>, BusinessError>)
    ensures
        r == Ok::<Option<bool>, BusinessError>(input),
{
    Ok(input)
}

/// Hands back the optional value it was given, absent or present.
pub fn option_byte(input: Option<i8>) -> (r: Result<Option<i8>, BusinessError>)
    ensures
        r == Ok::<Option<i8>, BusinessError>(input),
{
    Ok(input)
}

/// Hands back the optional value it was given, absent or present.
pub fn option_i16(input: Option<i16>) -> (r: Result<Option<i16>, BusinessError>)
    ensures
        r == Ok::<Option<i16>, BusinessError>(input),
{
    Ok(input)
}

/// Hands back the optional value it was given, absent or present.
pub fn option_i32(input: Option<i32>) -> (r: Result<Option<i32>, BusinessError>)
    ensures
        r == Ok::<Option<i32>, BusinessError>(input),
{
    Ok(input)
}

/// Hands back the optional value it was given, absent or present.
pub fn option_i64(input: Option<i64>) -> (r: Result<Option<i64>, BusinessError>)
    ensures
        r == Ok::<Option<i64>, BusinessError>(input),
{
    Ok(input)
}

/// Hands back the array buffer it was given.
pub fn array_buffer_test(input: ArrayBuffer) -> (r: Result<ArrayBuffer, BusinessError>)
    ensures
        r is Ok && r->Ok_0.data@ == input.data@,
{
    Ok(input)
}

/// Adds one to every byte of the buffer.
pub fn change_array_buffer(input: ArrayBuffer) -> (r: Result<ArrayBuffer, BusinessError>)
    requires
        forall|i: int| 0 <= i < input.data@.len() ==> input.data@[i] < u8::MAX,
    ensures
        r is Ok,
        r->Ok_0.data@.len() == input.data@.len(),
        forall|i: int| 0 <= i < input.data@.len() ==> r->Ok_0.data@[i] == input.data@[i] + 1,
{
    let mut input = input;
    input.increment_all();
    Ok(input)
}

/// A new buffer holding the bytes 1, 2, 3, 4.
pub fn create_array_buffer() -> (r: Result<ArrayBuffer, BusinessError>)
    ensures
        r is Ok && r->Ok_0.data@ == seq![1u8, 2u8, 3u8, 4u8],
{
    let data: Vec<u8> = vec![1, 2, 3, 4];
    Ok(ArrayBuffer::new_with_vec(data))
}

/// Hands back the typed array it was given.
pub fn int8_array_test(input: Int8Array) -> (r: Result<Int8Array, BusinessError>)
    ensures
        r is Ok && r->Ok_0.data@ == input.data@,
{
    Ok(input)
}

/// Adds one to every element of the typed array.
pub fn change_int8_array(input: Int8Array) -> (r: Result<Int8Array, BusinessError>)
    requires
        forall|i: int| 0 <= i < input.data@.len() ==> input.data@[i] < i8::MAX,
    ensures
        r is Ok,
        r->Ok_0.data@.len() == input.data@.len(),
        forall|i: int| 0 <= i < input.data@.len() ==> r->Ok_0.data@[i] == input.data@[i] + 1,
{
    let mut input = input;
    input.increment_all();
    Ok(input)
}

/// A new typed array with a copy of the elements of the one given.
pub fn create_int8_array(input: Int8Array) -> (r: Result<Int8Array, BusinessError>)
    ensures
        r is Ok && r->Ok_0.data@ == input.data@,
{
    let data = input.to_vec();
    Ok(Int8Array::new_with_vec(data))
}

/// Hands back the typed array it was given.
pub fn uint8_array_test(input: Uint8Array) -> (r: Result<Uint8Array, BusinessError>)
    ensures
        r is Ok && r->Ok_0.data@ == input.data@,
{
    Ok(input)
}

/// Adds one to every element of the typed array.
pub fn change_uint8_array(input: Uint8Array) -> (r: Result<Uint8Array, BusinessError>)
    requires
        forall|i: int| 0 <= i < input.data@.len() ==> input.data@[i] < u8::MAX,
    ensures
        r is Ok,
        r->Ok_0.data@.len() == input.data@.len(),
        forall|i: int| 0 <= i < input.data@.len() ==> r->Ok_0.data@[i] == input.data@[i] + 1,
{
    let mut input = input;
    input.increment_all();
    Ok(input)
}

/// A new typed array with a copy of the elements of the one given.
pub fn create_uint8_array(input: Uint8Array) -> (r: Result<Uint8Array, BusinessError>)
    ensures
        r is Ok && r->Ok_0.data@ == input.data@,
{
    let data = input.to_vec();
    Ok(Uint8Array::new_with_vec(data))
}

/// Hands back the typed array it was given.
pub fn int16_array_test(input: Int16Array) -> (r: Result<Int16Array, BusinessError>)
    ensures
        r is Ok && r->Ok_0.data@ == input.data@,
{
    Ok(input)
}

/// Adds one to every element of the typed array.
pub fn change_int16_array(input: Int16Array) -> (r: Result<Int16Array, BusinessError>)
    requires
        forall|i: int| 0 <= i < input.data@.len() ==> input.data@[i] < i16::MAX,
    ensures
        r is Ok,
        r->Ok_0.data@.len() == input.data@.len(),
        forall|i: int| 0 <= i < input.data@.len() ==> r->Ok_0.data@[i] == input.data@[i] + 1,
{
    let mut input = input;
    input.increment_all();
    Ok(input)
}

/// A new typed array with a copy of the elements of the one given.
pub fn create_int16_array(input: Int16Array) -> (r: Result<Int16Array, BusinessError>)
    ensures
        r is Ok && r->Ok_0.data@ == input.data@,
{
    let data = input.to_vec();
    Ok(Int16Array::new_with_vec(data))
}

/// Hands back the typed array it was given.
pub fn uint16_array_test(input: Uint16Array) -> (r: Result<Uint16Array, BusinessError>)
    ensures
        r is Ok && r->Ok_0.data@ == input.data@,
{
    Ok(input)
}

/// Adds one to every element of the typed array.
pub fn change_uint16_array(input: Uint16Array) -> (r: Result<Uint16Array, BusinessError>)
    requires
        forall|i: int| 0 <= i < input.data@.len() ==> input.data@[i] < u16::MAX,
    ensures
        r is Ok,
        r->Ok_0.data@.len() == input.data@.len(),
        forall|i: int| 0 <= i < input.data@.len() ==> r->Ok_0.data@[i] == input.data@[i] + 1,
{
    let mut input = input;
    input.increment_all();
    Ok(input)
}

/// A new typed array with a copy of the elements of the one given.
pub fn create_uint16_array(input: Uint16Array) -> (r: Result<Uint16Array, BusinessError>)
    ensures
        r is Ok && r->Ok_0.data@ == input.data@,
{
    let data = input.to_vec();
    Ok(Uint16Array::new_with_vec(data))
}

/// Hands back the typed array it was given.
pub fn int32_array_test(input: Int32Array) -> (r: Result<Int32Array, BusinessError>)
    ensures
        r is Ok && r->Ok_0.data@ == input.data@,
{
    Ok(input)
}

/// Adds one to every element of the typed array.
pub fn change_int32_array(input: Int32Array) -> (r: Result<Int32Array, BusinessError>)
    requires
        forall|i: int| 0 <= i < input.data@.len() ==> input.data@[i] < i32::MAX,
    ensures
        r is Ok,
        r->Ok_0.data@.len() == input.data@.len(),
        forall|i: int| 0 <= i < input.data@.len() ==> r->Ok_0.data@[i] == input.data@[i] + 1,
{
    let mut input = input;
    input.increment_all();
    Ok(input)
}

/// A new typed array with a copy of the elements of the one given.
pub fn create_int32_array(input: Int32Array) -> (r: Result<Int32Array, BusinessError>)
    ensures
        r is Ok && r->Ok_0.data@ == input.data@,
{
    let data = input.to_vec();
    Ok(Int32Array::new_with_vec(data))
}

/// Hands back the typed array it was given.
pub fn uint32_array_test(input: Uint32Array) -> (r: Result<Uint32Array, BusinessError>)
    ensures
        r is Ok && r->Ok_0.data@ == input.data@,
{
    Ok(input)
}

/// Adds one to every element of the typed array.
pub fn change_uint32_array(input: Uint32Array) -> (r: Result<Uint32Array, BusinessError>)
    requires
        forall|i: int| 0 <= i < input.data@.len() ==> input.data@[i] < u32::MAX,
    ensures
        r is Ok,
        r->Ok_0.data@.len() == input.data@.len(),
        forall|i: int| 0 <= i < input.data@.len() ==> r->Ok_0.data@[i] == input.data@[i] + 1,
{
    let mut input = input;
    input.increment_all();
    Ok(input)
}

/// A new typed array with a copy of the elements of the one given.
pub fn create_uint32_array(input: Uint32Array) -> (r: Result<Uint32Array, BusinessError>)
    ensures
        r is Ok && r->Ok_0.data@ == input.data@,
{
    let data = input.to_vec();
    Ok(Uint32Array::new_with_vec(data))
}

/// A record whose fields are an array buffer and a typed array.
pub struct ArrayBufferStruct {
    pub buffer1: ArrayBuffer,
    pub buffer2: Int32Array,
}

/// Hands back the record it was given.
pub fn array_buffer_strcut_test(input: ArrayBufferStruct) -> (r: Result<
    ArrayBufferStruct,
    BusinessError,
>)
    ensures
        r is Ok && r->Ok_0.buffer1.data@ == input.buffer1.data@ && r->Ok_0.buffer2.data@
            == input.buffer2.data@,
{
    Ok(input)
}

/// A response code and the address it came from.
pub struct ResponseCode {
    pub code: i32,
    pub url: String,
}

/// The HTTP protocol versions.
#[derive(Clone, Copy, PartialEq, Eq, Structural, Debug)]
pub enum HttpProtocol {
    Http1_1,
    Http2,
    Http3,
}

/// A union of a response code, a protocol, or a plain integer.
pub enum ResponseCodeOutput {
    Code(ResponseCode),
    Proto(HttpProtocol),
    I32(i32),
}

/// Items of an enum whose values are numbers.
#[derive(Clone, Copy, PartialEq, Eq, Structural, Debug)]
pub enum EnumNumber {
    One,
    Two,
    Three,
}

/// Items of an enum whose values are strings.
#[derive(Clone, Copy, PartialEq, Eq, Structural, Debug)]
pub enum EnumString {
    One,
    Two,
    Three,
}

/// Hands back the enum item it was given.
pub fn enum_test_number(input: EnumNumber) -> (r: Result<EnumNumber, BusinessError>)
    ensures
        r == Ok::<EnumNumber, BusinessError>(input),
{
    Ok(input)
}

/// Hands back the enum item it was given.
pub fn enum_test_string(input: EnumString) -> (r: Result<EnumString, BusinessError>)
    ensures
        r == Ok::<EnumString, BusinessError>(input),
{
    Ok(input)
}

/// Hands back the union value it was given, in the same variant.
pub fn enum_test_struct(input: ResponseCodeOutput) -> (r: Result<
    ResponseCodeOutput,
    BusinessError,
>)
    ensures
        r is Ok,
        match (input, r->Ok_0) {
            (ResponseCodeOutput::Code(a), ResponseCodeOutput::Code(b)) => a.code == b.code
                && a.url@ == b.url@,
            (ResponseCodeOutput::Proto(a), ResponseCodeOutput::Proto(b)) => a == b,
            (ResponseCodeOutput::I32(a), ResponseCodeOutput::I32(b)) => a == b,
            _ => false,
        },
{
    Ok(input)
}

/// What a transfer does.
#[derive(Clone, Copy, PartialEq, Eq, Structural, Debug)]
pub enum Action {
    Download,
    Upload,
}

/// A transfer: its action and its address.
pub struct Config {
    pub action: Action,
    pub url: String,
}

/// Hands back the record it was given, enum field included.
pub fn struct_enum(input: Config) -> (r: Result<Config, BusinessError>)
    ensures
        r is Ok && r->Ok_0.action == input.action && r->Ok_0.url@ == input.url@,
{
    Ok(input)
}

/// Hands back the record of strings it was given.
pub fn record_string(input: Vec<(String, String)>) -> (r: Result<
    Vec<(String, String)>,
    BusinessError,
>)
    ensures
        r is Ok && r->Ok_0@ == input@,
{
    Ok(input)
}

/// Hands back the record of integers it was given.
pub fn record_long(input: HashMap<i64, i64>) -> (r: Result<HashMap<i64, i64>, BusinessError>)
    ensures
        r is Ok && r->Ok_0@ == input@,
{
    Ok(input)
}

/// Hands back the record of response codes it was given.
pub fn record_struct(input: HashMap<i32, ResponseCode>) -> (r: Result<
    HashMap<i32, ResponseCode>,
    BusinessError,
>)
    ensures
        r is Ok && r->Ok_0@ == input@,
{
    Ok(input)
}

/// A record holding an untyped object and a string.
pub struct AniRefStruct {
    pub ani_obj_string: AniObject,
    pub ani_string: String,
}

/// Reads a reference back as an object: the handle passes through
/// unchanged, so the raw handles are equal.
pub fn aniref_deserialize_test(_env: &AniEnv, input: AniRef) -> (r: Result<bool, BusinessError>)
    ensures
        r == Ok::<bool, BusinessError>(true),
{
    let obj = AniObject(input);
    let raw1 = obj.as_raw();
    let res = AniObject::from_raw(raw1);
    let raw2 = res.as_raw();
    Ok(raw1 == raw2)
}

/// Whether the untyped field reaches the same string as the string field.
pub fn aniref_struct_de_test(env: &AniEnv, input: AniRefStruct) -> (r: Result<
    bool,
    BusinessError,
>)
    requires
        env.wf(),
    ensures
        r is Ok <==> env.is_live(input.ani_obj_string.0.inner) && env.value(
            input.ani_obj_string.0.inner,
        )->Some_0 is Str,
        r is Ok ==> r->Ok_0 == (env.value(input.ani_obj_string.0.inner)->Some_0->Str_0@
            == input.ani_string@),
{
    match env.deserialize_string(&input.ani_obj_string.0) {
        Ok(s) => Ok(s == input.ani_string),
        Err(e) => Err(BusinessError::from_ani(e)),
    }
}

/// Reads each object of the array as a string.
pub fn aniref_array_de_test(env: &AniEnv, input: Vec<AniObject>) -> (r: Result<
    Vec<String>,
    BusinessError,
>)
    requires
        env.wf(),
    ensures
        r is Ok <==> forall|i: int|
            0 <= i < input@.len() ==> env.value(#[trigger] input@[i].0.inner) is Some
                && env.value(input@[i].0.inner)->Some_0 is Str,
        r is Ok ==> r->Ok_0@.len() == input@.len() && forall|i: int|
            0 <= i < input@.len() ==> env.value(#[trigger] input@[i].0.inner) == Some(
                ManagedValue::Str(r->Ok_0@[i]),
            ),
{
    let mut out: Vec<String> = Vec::new();
    let mut i: usize = 0;
    while i < input.len()
        invariant
            env.wf(),
            i <= input@.len(),
            out@.len() == i,
            forall|j: int|
                0 <= j < i ==> env.value(#[trigger] input@[j].0.inner) == Some(
                    ManagedValue::Str(out@[j]),
                ),
        decreases input@.len() - i,
    {
        match env.deserialize_string(&input[i].0) {
            Ok(s) => out.push(s),
            Err(e) => {
                return Err(BusinessError::from_ani(e));
            },
        }
        i = i + 1;
    }
    Ok(out)
}

/// Writes a reference back as itself: serializing a raw reference passes
/// the handle through, so the raw handles are equal.
pub fn aniref_serialize_test(_env: &AniEnv, input: AniRef) -> (r: Result<bool, BusinessError>)
    ensures
        r == Ok::<bool, BusinessError>(true),
{
    let raw1 = input.as_raw();
    let res = input;
    let raw2 = res.as_raw();
    Ok(raw1 == raw2)
}

/// Hands back the record it was given.
pub fn aniref_struct_test(input: AniRefStruct) -> (r: Result<AniRefStruct, BusinessError>)
    ensures
        r is Ok && r->Ok_0.ani_obj_string == input.ani_obj_string && r->Ok_0.ani_string@
            == input.ani_string@,
{
    Ok(input)
}

/// Hands back the array of objects it was given.
pub fn aniref_array_test(input: Vec<AniObject>) -> (r: Result<Vec<AniObject>, BusinessError>)
    ensures
        r is Ok && r->Ok_0@ == input@,
{
    Ok(input)
}

/// A new managed string "hello world".
pub fn return_ani_ref_test(env: &mut AniEnv) -> (r: Result<AniRef, BusinessError>)
    requires
        old(env).wf(),
    ensures
        final(env).wf(),
        r is Ok <==> old(env).has_room(1),
        r is Ok ==> final(env).value(r->Ok_0.inner) is Some && final(env).value(
            r->Ok_0.inner,
        )->Some_0 is Str && final(env).value(r->Ok_0.inner)->Some_0->Str_0@ == "hello world"@,
{
    let res = String::from_str("hello world");
    match env.serialize_string(res) {
        Ok(h) => Ok(h),
        Err(e) => Err(BusinessError::from_ani(e)),
    }
}

/// How the body of an HTTP response is to be read.
#[derive(Clone, Copy, PartialEq, Eq, Structural, Debug)]
pub enum HttpDataType {
    String,
    Object,
    ArrayBuffer,
}

/// Options of an HTTP request: an untyped payload and the expected type of
/// the response.
pub struct HttpRequestOptions {
    pub extra_data: Option<AniObject>,
    pub expect_data_type: Option<HttpDataType>,
}

/// The payload of an HTTP request, read by the runtime type of the value the
/// managed side passed: a string, the bytes of an array buffer, or any other
/// object, which is handed on as it is to be written as JSON.
pub enum RequestBody {
    Text(String),
    Bytes(Vec<u8>),
    Object(AniRef),
}

/// Reads the payload of a request. Both options must be given. The payload is
/// checked against the string class, then the array buffer class, in that
/// order; any other live value is an object.
pub fn json_request_test(env: &AniEnv, options: &HttpRequestOptions) -> (r: Result<
    RequestBody,
    BusinessError,
>)
    requires
        env.wf(),
    ensures
        options.expect_data_type is None || options.extra_data is None ==> r is Err
            && r->Err_0.code == PARAMETER_CODE,
        options.expect_data_type is Some && options.extra_data is Some ==> {
            let h = options.extra_data->Some_0.0.inner;
            let v = env.value(h)->Some_0;
            &&& !env.is_live(h) ==> r is Err
            &&& env.is_live(h) && v is Str ==> r is Ok && r->Ok_0 is Text && r->Ok_0->Text_0
                == v->Str_0
            &&& env.is_live(h) && v is ArrayBuffer ==> r is Ok && r->Ok_0 is Bytes
                && r->Ok_0->Bytes_0@ == v->ArrayBuffer_0@
            &&& env.is_live(h) && class_of(v) != "std.core.String"@ && class_of(v)
                != "escompat.ArrayBuffer"@ ==> r is Ok && r->Ok_0 == RequestBody::Object(
                AniRef { inner: h },
            )
        },
{
    if options.expect_data_type.is_none() || options.extra_data.is_none() {
        return Err(BusinessError::parameter());
    }
    let obj = match options.extra_data {
        Some(o) => o,
        None => {
            return Err(BusinessError::parameter());
        },
    };
    let candidates = vec![String::from_str("std.core.String"), String::from_str("escompat.ArrayBuffer")];
    proof {
        reveal_strlit("std.core.String");
        reveal_strlit("escompat.ArrayBuffer");
        assert(candidates@.len() == 2);
        assert(candidates@[0]@ == "std.core.String"@);
        assert(candidates@[1]@ == "escompat.ArrayBuffer"@);
        assert("std.core.String"@.len() != "escompat.ArrayBuffer"@.len());
    }
    match env.select_variant(&obj.0, &candidates) {
        Ok(0) => match env.deserialize_string(&obj.0) {
            Ok(s) => Ok(RequestBody::Text(s)),
            Err(e) => Err(BusinessError::from_ani(e)),
        },
        Ok(_) => match env.deserialize_array_buffer(&obj.0) {
            Ok(b) => Ok(RequestBody::Bytes(b)),
            Err(e) => Err(BusinessError::from_ani(e)),
        },
        Err(e) => {
            if env.value_of(&obj.0).is_ok() {
                Ok(RequestBody::Object(obj.0))
            } else {
                Err(BusinessError::from_ani(e))
            }
        },
    }
}

/// The text `String::from_utf8_lossy` makes of `bytes`.
pub uninterp spec fn utf8_lossy_of(bytes: Seq<u8>) -> Seq<char>;

/// Relies on `String::from_utf8_lossy`: the bytes decoded as UTF-8, each
/// invalid sequence replaced by U+FFFD; no bytes give the empty string.
#[verifier::external_body]
fn utf8_lossy(bytes: &Vec<u8>) -> (r: String)
    ensures
        r@ == utf8_lossy_of(bytes@),
        bytes@.len() == 0 ==> r@.len() == 0,
{
    String::from_utf8_lossy(bytes.as_slice()).into_owned()
}

/// The text of a request payload: a string as it is, a buffer decoded as
/// UTF-8 with replacement characters. An object has no text here: only the
/// runtime's JSON writer can give it one.
pub fn request_body_text(body: &RequestBody) -> (r: Option<String>)
    ensures
        body is Text ==> r == Some(body->Text_0),
        body is Bytes ==> r is Some && r->Some_0@ == utf8_lossy_of(body->Bytes_0@),
        body is Object ==> r is None,
{
    match body {
        RequestBody::Text(s) => Some(s.clone()),
        RequestBody::Bytes(b) => Some(utf8_lossy(b)),
        RequestBody::Object(_) => None,
    }
}

/// An HTTP response: its body, held globally, and how to read it.
pub struct HttpResponse {
    pub result: GlobalRef,
    pub result_type: HttpDataType,
}

impl HttpResponse {
    /// A response with the given body and type.
    pub fn new(result: GlobalRef, result_type: HttpDataType) -> (r: HttpResponse)
        ensures
            r.result == result,
            r.result_type == result_type,
    {
        HttpResponse { result, result_type }
    }
}

} // verus!

//! Native entry points that invoke the callbacks the managed side passes
//! in, through each of the ways of invoking them.
use vstd::prelude::*;

use crate::async_callback::{AniAsyncCallback, AniErrorCallback, AsyncInput, ErrorInput};
use crate::callback::{one_more_call, Holders, InputVec};
use crate::env::{AniEnv, AniRef, ManagedValue};
use crate::error::{AniError, BusinessError};
use crate::objects::{AniFnObject, AniObject, GlobalRef};
use crate::ser::Primitive;
use crate::vm::AniVm;

verus! {

/// A record of a string held through a global reference and a plain string.
pub struct AniRefCallbackStruct {
    pub ani_obj_string: GlobalRef,
    pub ani_string: String,
}

impl InputVec for AniRefCallbackStruct {
    open spec fn cost(&self) -> Option<nat> {
        Some(2)
    }

    open spec fn encoded_by(&self, env: &AniEnv, args: Seq<AniRef>) -> bool {
        crate::callback::single_object(env, args, "anirs.test.ani_test.AniRefStruct"@)
    }

    proof fn lemma_encoding_kept(&self, old: &AniEnv, new: &AniEnv, args: Seq<AniRef>) {
        crate::callback::lemma_single_object_kept(old, new, args, "anirs.test.ani_test.AniRefStruct"@);
    }

    fn input(&self, env: &mut AniEnv) -> (r: Result<Vec<AniRef>, AniError>) {
        let ghost start = *env;
        let s = env.serialize_string(self.ani_string.clone())?;
        let ghost mid = *env;
        proof {
            reveal_strlit("anirs.test.ani_test.AniRefStruct");
        }
        let obj = env.new_object(
            String::from_str("anirs.test.ani_test.AniRefStruct"),
            vec![self.ani_obj_string.as_handle(), s],
        )?;
        proof {
            crate::compound::lemma_extends_trans(&start, &mid, env);
        }
        let v = vec![obj];
        assert(v@[0] == obj);
        Ok(v)
    }
}

/// The shared state a native entry point may touch: the environment, the
/// attachment of threads, and the holders of global callbacks.
pub struct Runtime {
    pub env: AniEnv,
    pub vm: AniVm,
    pub holders: Holders,
}

impl Runtime {
    /// The runtime state is consistent.
    pub open spec fn wf(&self) -> bool {
        self.env.wf() && self.holders.wf(&self.env)
    }

    /// A fresh runtime with nothing allocated and no thread attached.
    pub fn new() -> (r: Runtime)
        ensures
            r.wf(),
            r.env.refs@.len() == 0,
            r.env.calls@.len() == 0,
    {
        Runtime { env: AniEnv::new(), vm: AniVm::new(), holders: Holders::new() }
    }
}

/// The result of a native entry point that made at most one call of `f`:
/// success means exactly one call was made.
pub open spec fn called_once(new: &AniEnv, old: &AniEnv, f: u64, ok: bool) -> bool {
    &&& ok ==> one_more_call(new, old, f)
    &&& !ok ==> new.calls@ == old.calls@
}

/// Calls `callback` with 1 on the caller's environment.
pub fn execute_callback1(env: &mut AniEnv, callback: AniFnObject) -> (r: Result<
    (),
    BusinessError,
>)
    requires
        old(env).wf(),
    ensures
        final(env).wf(),
        callback.is_callable_in(old(env)) && old(env).has_room(2) ==> r is Ok,
        called_once(final(env), old(env), callback.0.0.inner, r is Ok),
        r is Ok ==> crate::callback::single_value(
            final(env),
            final(env).calls@.last().args@,
            ManagedValue::Int(1),
        ),
{
    match callback.execute_local(env, &Primitive::Int(1)) {
        Ok(_) => Ok(()),
        Err(e) => Err(BusinessError::from_ani(e)),
    }
}

/// Calls `callback` with 2 from thread `tid`, attaching it when needed.
pub fn execute_callback2(vm: &mut AniVm, tid: u64, env: &mut AniEnv, callback: AniFnObject) -> (r:
    Result<(), BusinessError>)
    requires
        old(env).wf(),
    ensures
        final(env).wf(),
        final(vm).is_attached(tid),
        callback.is_callable_in(old(env)) && old(env).has_room(2) ==> r is Ok,
        called_once(final(env), old(env), callback.0.0.inner, r is Ok),
        r is Ok ==> crate::callback::single_value(
            final(env),
            final(env).calls@.last().args@,
            ManagedValue::Int(2),
        ),
{
    match callback.execute_current(vm, tid, env, &Primitive::Int(2)) {
        Ok(_) => Ok(()),
        Err(e) => Err(BusinessError::from_ani(e)),
    }
}

/// Promotes `callback` to a global one and calls it with 3 on the spawned
/// thread `tid`. Fails only when the promotion fails.
pub fn execute_callback3(rt: &mut Runtime, tid: u64, callback: AniFnObject) -> (r: Result<
    (),
    BusinessError,
>)
    requires
        old(rt).wf(),
    ensures
        final(rt).wf(),
        r is Ok <==> old(rt).env.is_live(callback.0.0.inner) && old(rt).env.has_room(1),
        r is Ok ==> final(rt).vm.is_attached(tid),
        final(rt).env.calls@.len() <= old(rt).env.calls@.len() + 1,
        callback.is_callable_in(&old(rt).env) && old(rt).env.has_room(3)
            ==> final(rt).env.calls@.len() == old(rt).env.calls@.len() + 1,
{
    run_globally(rt, tid, callback, Primitive::Int(3))
}

/// Promotes `callback` to a global one and runs it on thread `tid` with the
/// arguments made from `input`. Fails only when the promotion fails.
fn run_globally<T: InputVec>(rt: &mut Runtime, tid: u64, callback: AniFnObject, input: T) -> (r:
    Result<(), BusinessError>)
    requires
        old(rt).wf(),
    ensures
        final(rt).wf(),
        r is Ok <==> old(rt).env.is_live(callback.0.0.inner) && old(rt).env.has_room(1),
        r is Ok ==> final(rt).vm.is_attached(tid),
        final(rt).env.calls@.len() <= old(rt).env.calls@.len() + 1,
        input.cost() is Some && callback.is_callable_in(&old(rt).env) && old(rt).env.has_room(
            input.cost()->Some_0 + 2int,
        ) ==> final(rt).env.calls@.len() == old(rt).env.calls@.len() + 1,
{
    let g = match callback.into_global_callback(&mut rt.env, &mut rt.holders) {
        Ok(g) => g,
        Err(e) => {
            return Err(BusinessError::from_ani(e));
        },
    };
    let ghost before = rt.env;
    proof {
        assert(rt.holders.slots@[g.slot as int] == rt.holders.slots@.last());
    }
    let _ = g.execute(&rt.holders, &mut rt.vm, tid, &mut rt.env, input);
    proof {
        crate::callback::lemma_holders_kept(&rt.holders, &before, &rt.env);
    }
    Ok(())
}

/// Calls the asynchronous `callback` with error 401 "failed1" and 1.
pub fn execute_async_callback1(env: &mut AniEnv, async_callback: AniAsyncCallback) -> (r: Result<
    (),
    BusinessError,
>)
    requires
        old(env).wf(),
    ensures
        final(env).wf(),
        called_once(final(env), old(env), async_callback.0.0.0.inner, r is Ok),
        async_callback.0.is_callable_in(old(env)) && old(env).has_room(5) ==> r is Ok,
{
    let err = BusinessError::new_static(401, "failed1");
    match async_callback.execute_local(env, Some(err), &Primitive::Int(1)) {
        Ok(_) => Ok(()),
        Err(e) => Err(BusinessError::from_ani(e)),
    }
}

/// Calls the asynchronous `callback` with error 402 "failed2" and 2 from
/// thread `tid`, attaching it when needed.
pub fn execute_async_callback2(
    vm: &mut AniVm,
    tid: u64,
    env: &mut AniEnv,
    async_callback: AniAsyncCallback,
) -> (r: Result<(), BusinessError>)
    requires
        old(env).wf(),
    ensures
        final(env).wf(),
        final(vm).is_attached(tid),
        called_once(final(env), old(env), async_callback.0.0.0.inner, r is Ok),
        async_callback.0.is_callable_in(old(env)) && old(env).has_room(5) ==> r is Ok,
{
    let err = BusinessError::new_static(402, "failed2");
    match async_callback.execute_current(vm, tid, env, Some(err), &Primitive::Int(2)) {
        Ok(_) => Ok(()),
        Err(e) => Err(BusinessError::from_ani(e)),
    }
}

/// Promotes the asynchronous `callback` and runs it on thread `tid` with
/// error 403 "failed3" and 3.
pub fn execute_async_callback3(rt: &mut Runtime, tid: u64, async_callback: AniAsyncCallback) -> (r:
    Result<(), BusinessError>)
    requires
        old(rt).wf(),
    ensures
        final(rt).wf(),
        r is Ok <==> old(rt).env.is_live(async_callback.0.0.0.inner) && old(rt).env.has_room(1),
        r is Ok ==> final(rt).vm.is_attached(tid),
        async_callback.0.is_callable_in(&old(rt).env) && old(rt).env.has_room(6)
            ==> final(rt).env.calls@.len() == old(rt).env.calls@.len() + 1,
{
    let err = BusinessError::new_static(403, "failed3");
    run_globally(rt, tid, async_callback.0, AsyncInput { err: Some(err), input: Primitive::Int(3) })
}

/// Calls the error `callback` with error 401 "failed1".
pub fn execute_error_callback1(env: &mut AniEnv, error_callback: AniErrorCallback) -> (r: Result<
    (),
    BusinessError,
>)
    requires
        old(env).wf(),
    ensures
        final(env).wf(),
        called_once(final(env), old(env), error_callback.0.0.0.inner, r is Ok),
        error_callback.0.is_callable_in(old(env)) && old(env).has_room(4) ==> r is Ok,
{
    let err = BusinessError::new_static(401, "failed1");
    match error_callback.execute_local(env, err) {
        Ok(_) => Ok(()),
        Err(e) => Err(BusinessError::from_ani(e)),
    }
}

/// Calls the error `callback` with error 402 "failed2" from thread `tid`.
pub fn execute_error_callback2(
    vm: &mut AniVm,
    tid: u64,
    env: &mut AniEnv,
    error_callback: AniErrorCallback,
) -> (r: Result<(), BusinessError>)
    requires
        old(env).wf(),
    ensures
        final(env).wf(),
        final(vm).is_attached(tid),
        called_once(final(env), old(env), error_callback.0.0.0.inner, r is Ok),
        error_callback.0.is_callable_in(old(env)) && old(env).has_room(4) ==> r is Ok,
{
    let err = BusinessError::new_static(402, "failed2");
    match error_callback.execute_current(vm, tid, env, err) {
        Ok(_) => Ok(()),
        Err(e) => Err(BusinessError::from_ani(e)),
    }
}

/// Promotes the error `callback` and runs it on thread `tid` with error 403
/// "failed3".
pub fn execute_error_callback3(rt: &mut Runtime, tid: u64, error_callback: AniErrorCallback) -> (r:
    Result<(), BusinessError>)
    requires
        old(rt).wf(),
    ensures
        final(rt).wf(),
        r is Ok <==> old(rt).env.is_live(error_callback.0.0.0.inner) && old(rt).env.has_room(1),
        r is Ok ==> final(rt).vm.is_attached(tid),
        error_callback.0.is_callable_in(&old(rt).env) && old(rt).env.has_room(5)
            ==> final(rt).env.calls@.len() == old(rt).env.calls@.len() + 1,
{
    run_globally(rt, tid, error_callback.0, ErrorInput { code: 403, msg: String::from_str("failed3") })
}

/// Calls `callback` with a new managed string "rust".
pub fn execute_ani_ref_callback1(env: &mut AniEnv, callback: AniFnObject) -> (r: Result<
    (),
    BusinessError,
>)
    requires
        old(env).wf(),
    ensures
        final(env).wf(),
        called_once(final(env), old(env), callback.0.0.inner, r is Ok),
        r is Ok ==> final(env).calls@.last().args@.len() == 1,
        callback.is_callable_in(old(env)) && old(env).has_room(2) ==> r is Ok,
{
    let argv = match env.serialize_string(String::from_str("rust")) {
        Ok(h) => h,
        Err(e) => {
            return Err(BusinessError::from_ani(e));
        },
    };
    match env.function_object_call(&callback.0.0, vec![argv]) {
        Ok(_) => Ok(()),
        Err(e) => Err(BusinessError::from_ani(e)),
    }
}

/// Promotes `callback`, writes the string "rust", holds it globally, and runs
/// the callback on thread `tid` with that global reference.
pub fn execute_ani_ref_callback2(rt: &mut Runtime, tid: u64, callback: AniFnObject) -> (r: Result<
    (),
    BusinessError,
>)
    requires
        old(rt).wf(),
    ensures
        final(rt).wf(),
        r is Ok ==> final(rt).vm.is_attached(tid),
        final(rt).env.calls@.len() <= old(rt).env.calls@.len() + 1,
        callback.is_callable_in(&old(rt).env) && old(rt).env.has_room(4) ==> r is Ok
            && final(rt).env.calls@.len() == old(rt).env.calls@.len() + 1,
{
    let ghost start = rt.env;
    let g = match callback.into_global_callback(&mut rt.env, &mut rt.holders) {
        Ok(g) => g,
        Err(e) => {
            return Err(BusinessError::from_ani(e));
        },
    };
    let ghost e0 = rt.env;
    proof {
        assert(rt.holders.slots@[g.slot as int] == rt.holders.slots@.last());
    }
    let argv = match rt.env.serialize_string(String::from_str("rust")) {
        Ok(h) => h,
        Err(e) => {
            return Err(BusinessError::from_ani(e));
        },
    };
    let ghost e1 = rt.env;
    let global_argv = match AniObject(argv).into_global(&mut rt.env) {
        Ok(h) => h,
        Err(e) => {
            proof {
                crate::callback::lemma_holders_kept(&rt.holders, &e0, &rt.env);
            }
            return Err(BusinessError::from_ani(e));
        },
    };
    let ghost e2 = rt.env;
    proof {
        crate::callback::lemma_holders_kept(&rt.holders, &e0, &e1);
        crate::callback::lemma_holders_kept(&rt.holders, &e1, &e2);
        let gh = rt.holders.slots@[g.slot as int].global.inner;
        crate::compound::lemma_extends_value(&e1, &e0, gh);
        crate::compound::lemma_extends_value(&e2, &e1, gh);
    }
    let _ = g.execute(&rt.holders, &mut rt.vm, tid, &mut rt.env, global_argv);
    proof {
        crate::callback::lemma_holders_kept(&rt.holders, &e2, &rt.env);
    }
    Ok(())
}

/// Writes the record built from the global string "rust " and the string
/// "cpp" for a callback.
fn ani_ref_callback_input(env: &mut AniEnv) -> (r: Result<AniRefCallbackStruct, BusinessError>)
    requires
        old(env).wf(),
    ensures
        final(env).wf(),
        final(env).extends(old(env)),
        final(env).refs@.len() <= old(env).refs@.len() + 2,
        old(env).has_room(2) ==> r is Ok,
{
    let s1_ref = match env.serialize_string(String::from_str("rust ")) {
        Ok(h) => h,
        Err(e) => {
            return Err(BusinessError::from_ani(e));
        },
    };
    let ghost mid = *env;
    let s1_global = match AniObject(s1_ref).into_global(env) {
        Ok(g) => g,
        Err(e) => {
            return Err(BusinessError::from_ani(e));
        },
    };
    proof {
        crate::compound::lemma_extends_trans(old(env), &mid, env);
    }
    Ok(AniRefCallbackStruct { ani_obj_string: s1_global, ani_string: String::from_str("cpp") })
}

/// Calls `callback` with a record of a global string and a plain string.
pub fn execute_ani_ref_callback3(env: &mut AniEnv, callback: AniFnObject) -> (r: Result<
    (),
    BusinessError,
>)
    requires
        old(env).wf(),
    ensures
        final(env).wf(),
        called_once(final(env), old(env), callback.0.0.inner, r is Ok),
        callback.is_callable_in(old(env)) && old(env).has_room(5) ==> r is Ok,
{
    let ghost e0 = *env;
    let argv = ani_ref_callback_input(env)?;
    proof {
        crate::compound::lemma_extends_value(env, &e0, callback.0.0.inner);
    }
    match callback.execute_local(env, &argv) {
        Ok(_) => Ok(()),
        Err(e) => Err(BusinessError::from_ani(e)),
    }
}

/// Promotes `callback` and runs it on thread `tid` with a record of a global
/// string and a plain string.
pub fn execute_ani_ref_callback4(rt: &mut Runtime, tid: u64, callback: AniFnObject) -> (r: Result<
    (),
    BusinessError,
>)
    requires
        old(rt).wf(),
    ensures
        final(rt).wf(),
        r is Ok ==> final(rt).vm.is_attached(tid),
        final(rt).env.calls@.len() <= old(rt).env.calls@.len() + 1,
        callback.is_callable_in(&old(rt).env) && old(rt).env.has_room(6) ==> r is Ok
            && final(rt).env.calls@.len() == old(rt).env.calls@.len() + 1,
{
    let ghost e0 = rt.env;
    let argv = ani_ref_callback_input(&mut rt.env)?;
    proof {
        crate::callback::lemma_holders_kept(&rt.holders, &e0, &rt.env);
        crate::compound::lemma_extends_value(&rt.env, &e0, callback.0.0.inner);
    }
    run_globally(rt, tid, callback, argv)
}

/// Calls each of three callbacks once, in order: a plain one with 1, an
/// asynchronous one with no error and 2, and an error one with error 3
/// "err".
pub fn execute_multi_callbacks(
    env: &mut AniEnv,
    callback1: AniFnObject,
    callback2: AniAsyncCallback,
    callback3: AniErrorCallback,
) -> (r: Result<(), BusinessError>)
    requires
        old(env).wf(),
    ensures
        final(env).wf(),
        r is Ok ==> {
            let n = old(env).calls@.len() as int;
            &&& final(env).calls@.len() == n + 3
            &&& final(env).calls@[n].function == callback1.0.0.inner
            &&& final(env).calls@[n + 1].function == callback2.0.0.0.inner
            &&& final(env).calls@[n + 2].function == callback3.0.0.0.inner
            &&& final(env).calls@.subrange(0, n) == old(env).calls@
            &&& crate::callback::single_value(final(env), final(env).calls@[n].args@, ManagedValue::Int(1))
            &&& final(env).calls@[n + 1].args@.len() == 2
            &&& final(env).value(final(env).calls@[n + 1].args@[0].inner) == Some(ManagedValue::Undefined)
            &&& final(env).value(final(env).calls@[n + 1].args@[1].inner) == Some(ManagedValue::Int(2))
            &&& final(env).calls@[n + 2].args@.len() == 1
            &&& crate::async_callback::is_error_object(
                final(env),
                final(env).calls@[n + 2].args@[0].inner,
                3,
                "err"@,
            )
        },
        callback1.is_callable_in(old(env)) && callback2.0.is_callable_in(old(env))
            && callback3.0.is_callable_in(old(env)) && old(env).has_room(9) ==> r is Ok,
{
    let ghost e0 = *env;
    if let Err(e) = callback1.execute_local(env, &Primitive::Int(1)) {
        return Err(BusinessError::from_ani(e));
    }
    let ghost e1 = *env;
    proof {
        crate::callback::lemma_kept_value(&e1, &e0, callback2.0.0.0.inner);
        crate::callback::lemma_kept_value(&e1, &e0, callback3.0.0.0.inner);
    }
    if let Err(e) = callback2.execute_local(env, None, &Primitive::Int(2)) {
        return Err(BusinessError::from_ani(e));
    }
    let ghost e2 = *env;
    proof {
        crate::callback::lemma_kept_value(&e2, &e1, callback3.0.0.0.inner);
    }
    if let Err(e) = callback3.execute_local(env, BusinessError::new_static(3, "err")) {
        return Err(BusinessError::from_ani(e));
    }
    proof {
        let n = e0.calls@.len() as int;
        let a1 = e1.calls@[n].args@;
        let a2 = e2.calls@[n + 1].args@;
        crate::callback::lemma_single_value_kept(&e1, &e2, a1, ManagedValue::Int(1));
        crate::callback::lemma_single_value_kept(&e2, env, a1, ManagedValue::Int(1));
        assert(a2.subrange(1, a2.len() as int).len() == 1);
        assert(a2.subrange(1, a2.len() as int)[0] == a2[1]);
        crate::callback::lemma_kept_value(env, &e2, a2[0].inner);
        crate::callback::lemma_kept_value(env, &e2, a2[1].inner);
        assert(env.calls@.drop_last() == e2.calls@);
        assert(e2.calls@.drop_last() == e1.calls@);
        assert(e1.calls@.drop_last() == e0.calls@);
        assert(env.calls@[n] == e2.calls@[n]);
        assert(e2.calls@[n] == e1.calls@[n]);
        assert(env.calls@[n + 1] == e2.calls@[n + 1]);
        assert(env.calls@.subrange(0, n) =~= e0.calls@) by {
            assert forall|i: int| 0 <= i < n implies env.calls@[i] == e0.calls@[i] by {
                assert(env.calls@[i] == e2.calls@[i]);
                assert(e2.calls@[i] == e1.calls@[i]);
                assert(e1.calls@[i] == e0.calls@[i]);
            }
        }
    }
    Ok(())
}

/// Promotes `callback` and runs it on thread `tid` with 1; what the callback
/// throws stays on the managed side.
pub fn execute_throw_error_callback1(rt: &mut Runtime, tid: u64, callback: AniFnObject) -> (r:
    Result<(), BusinessError>)
    requires
        old(rt).wf(),
    ensures
        final(rt).wf(),
        r is Ok <==> old(rt).env.is_live(callback.0.0.inner) && old(rt).env.has_room(1),
        final(rt).env.calls@.len() <= old(rt).env.calls@.len() + 1,
        callback.is_callable_in(&old(rt).env) && old(rt).env.has_room(3)
            ==> final(rt).env.calls@.len() == old(rt).env.calls@.len() + 1,
{
    run_globally(rt, tid, callback, Primitive::Int(1))
}

/// Promotes the asynchronous `callback` and runs it on thread `tid` with no
/// error and 1.
pub fn execute_throw_error_callback2(rt: &mut Runtime, tid: u64, async_callback: AniAsyncCallback) -> (r:
    Result<(), BusinessError>)
    requires
        old(rt).wf(),
    ensures
        final(rt).wf(),
        r is Ok <==> old(rt).env.is_live(async_callback.0.0.0.inner) && old(rt).env.has_room(1),
        final(rt).env.calls@.len() <= old(rt).env.calls@.len() + 1,
        async_callback.0.is_callable_in(&old(rt).env) && old(rt).env.has_room(4)
            ==> final(rt).env.calls@.len() == old(rt).env.calls@.len() + 1,
{
    run_globally(rt, tid, async_callback.0, AsyncInput { err: None, input: Primitive::Int(1) })
}

/// Holds `callback` globally and runs it with 2 as an event on the thread
/// that owns `env`.
pub fn send_event_test2(env: &mut AniEnv, callback: AniFnObject) -> (r: Result<(), BusinessError>)
    requires
        old(env).wf(),
    ensures
        final(env).wf(),
        r is Ok ==> final(env).calls@.len() == old(env).calls@.len() + 1,
        r is Err ==> final(env).calls@ == old(env).calls@,
        callback.is_callable_in(old(env)) && old(env).has_room(3) ==> r is Ok,
{
    let g = match callback.into_global(env) {
        Ok(g) => g,
        Err(e) => {
            return Err(BusinessError::from_ani(e));
        },
    };
    let f = AniFnObject(AniObject(g.as_handle()));
    match f.execute_local(env, &Primitive::Int(2)) {
        Ok(_) => Ok(()),
        Err(e) => Err(BusinessError::from_ani(e)),
    }
}

} // verus!

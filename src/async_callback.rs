//! Callbacks in the error-first style: an asynchronous callback receives an
//! error (or undefined) followed by its result, an error callback receives
//! only the error.
use vstd::prelude::*;

use crate::callback::{one_more_call, GlobalRefCallback, Holders, InputVec};
use crate::env::{AniEnv, AniRef, ManagedValue};
use crate::error::{AniError, BusinessError};
use crate::objects::AniFnObject;
use crate::vm::AniVm;

verus! {

/// The class of the error objects handed to callbacks.
pub open spec fn business_error_class() -> Seq<char> {
    "@ohos.base.BusinessError"@
}

impl AniEnv {
    /// Writes a business error as an error object whose fields are its code
    /// and its message.
    pub fn serialize_business_error(&mut self, e: &BusinessError) -> (r: Result<
        AniRef,
        AniError,
    >)
        requires
            old(self).wf(),
        ensures
            final(self).wf(),
            final(self).extends(old(self)),
            final(self).refs@.len() <= old(self).refs@.len() + 3,
            r is Ok <==> old(self).has_room(3),
            r is Ok ==> {
                let v = final(self).value(r->Ok_0.inner)->Some_0;
                &&& final(self).value(r->Ok_0.inner) is Some
                &&& v is Object
                &&& v->class@ == business_error_class()
                &&& v->fields@.len() == 2
                &&& final(self).value(v->fields@[0].inner) == Some(ManagedValue::Int(e.code))
                &&& final(self).value(v->fields@[1].inner) == Some(ManagedValue::Str(e.msg))
            },
    {
        let ghost start = *self;
        if self.refs.len() >= crate::env::MAX_REFS - 2 {
            return Err(AniError::new("serialize_business_error", crate::env::STATUS_OUT_OF_REF));
        }
        let code = self.new_local(ManagedValue::Int(e.code))?;
        let ghost a = *self;
        let msg = self.new_local(ManagedValue::Str(e.msg.clone()))?;
        let ghost b = *self;
        let class = String::from_str("@ohos.base.BusinessError");
        proof {
            reveal_strlit("@ohos.base.BusinessError");
        }
        let r = self.new_object(class, vec![code, msg]);
        proof {
            crate::compound::lemma_extends_trans(&start, &a, &b);
            crate::compound::lemma_extends_trans(&start, &b, self);
            crate::compound::lemma_extends_value(&b, &a, code.inner);
            crate::compound::lemma_extends_value(self, &b, code.inner);
            crate::compound::lemma_extends_value(self, &b, msg.inner);
        }
        r
    }
}

/// The references writing the error argument takes: one for undefined,
/// three for an error object.
pub open spec fn error_cost(err: Option<BusinessError>) -> int {
    if err is None {
        1
    } else {
        3
    }
}

/// Whether `h` reaches an error object with code `code` and message `msg`.
pub open spec fn is_error_object(env: &AniEnv, h: u64, code: i32, msg: Seq<char>) -> bool {
    let v = env.value(h)->Some_0;
    &&& env.value(h) is Some
    &&& v is Object
    &&& v->class@ == business_error_class()
    &&& v->fields@.len() == 2
    &&& env.value(v->fields@[0].inner) == Some(ManagedValue::Int(code))
    &&& env.value(v->fields@[1].inner) is Some
    &&& env.value(v->fields@[1].inner)->Some_0 is Str
    &&& env.value(v->fields@[1].inner)->Some_0->Str_0@ == msg
}

/// An error object stays one while references and values are only added to.
pub proof fn lemma_error_object_kept(old: &AniEnv, new: &AniEnv, h: u64, code: i32, msg: Seq<char>)
    requires
        old.wf(),
        new.keeps_refs(old),
        is_error_object(old, h, code, msg),
    ensures
        is_error_object(new, h, code, msg),
{
    crate::callback::lemma_kept_value(new, old, h);
    let v = old.value(h)->Some_0;
    crate::callback::lemma_kept_value(new, old, v->fields@[0].inner);
    crate::callback::lemma_kept_value(new, old, v->fields@[1].inner);
}

/// An asynchronous callback: called with an error, or undefined on success,
/// followed by the result.
pub struct AniAsyncCallback(pub AniFnObject);

/// An error callback: called with an error alone.
pub struct AniErrorCallback(pub AniFnObject);

impl AniAsyncCallback {
    /// Invokes the callback on the caller's environment with `err` (undefined
    /// when `None`) and the arguments made from `input`.
    pub fn execute_local<T: InputVec>(
        &self,
        env: &mut AniEnv,
        err: Option<BusinessError>,
        input: &T,
    ) -> (r: Result<AniRef, AniError>)
        requires
            old(env).wf(),
        ensures
            final(env).wf(),
            final(env).keeps_refs(old(env)),
            input.cost() is Some && self.0.is_callable_in(old(env)) && old(env).has_room(
                input.cost()->Some_0 + error_cost(err) + 1,
            ) ==> r is Ok,
            input.cost() is Some ==> final(env).refs@.len() <= old(env).refs@.len()
                + input.cost()->Some_0 + error_cost(err) + 1,
            r is Ok ==> one_more_call(final(env), old(env), self.0.0.0.inner),
            r is Ok ==> input.encoded_by(
                final(env),
                final(env).calls@.last().args@.subrange(1, final(env).calls@.last().args@.len() as int),
            ),
            r is Ok ==> {
                let first = final(env).calls@.last().args@[0].inner;
                &&& final(env).calls@.last().args@.len() >= 1
                &&& err is None ==> final(env).value(first) == Some(ManagedValue::Undefined)
                &&& err is Some ==> final(env).value(first)->Some_0 is Object
            },
            r is Err ==> final(env).calls@ == old(env).calls@,
    {
        let ghost start = *env;
        let e = match err {
            None => env.new_local(ManagedValue::Undefined)?,
            Some(be) => env.serialize_business_error(&be)?,
        };
        let ghost mid = *env;
        let mut rest = match input.input(env) {
            Ok(rest) => rest,
            Err(x) => {
                proof {
                    crate::compound::lemma_extends_trans(&start, &mid, env);
                }
                return Err(x);
            },
        };
        let ghost after = *env;
        let ghost rest_view = rest@;
        let mut args = vec![e];
        args.append(&mut rest);
        proof {
            crate::compound::lemma_extends_value(&after, &mid, e.inner);
            crate::compound::lemma_extends_trans(&start, &mid, &after);
            crate::compound::lemma_extends_value(&after, &start, self.0.0.0.inner);
        }
        let r = env.function_object_call(&self.0.0.0, args);
        proof {
            crate::callback::lemma_keeps_refs_trans(&start, &after, env);
            if r is Ok {
                input.lemma_encoding_kept(&after, env, rest_view);
                let a = env.calls@.last().args@;
                assert(a.subrange(1, a.len() as int) =~= rest_view);
            }
            if r is Ok {
                assert(env.calls@.last().args@[0] == e);
                assert(env.refs@[e.inner - 1] == after.refs@[e.inner - 1]);
                assert(after.refs@[e.inner - 1].object < after.objects@.len());
            }
        }
        r
    }

    /// Invokes the callback from thread `tid`, attaching the thread first
    /// when it holds no environment.
    pub fn execute_current<T: InputVec>(
        &self,
        vm: &mut AniVm,
        tid: u64,
        env: &mut AniEnv,
        err: Option<BusinessError>,
        input: &T,
    ) -> (r: Result<AniRef, AniError>)
        requires
            old(env).wf(),
        ensures
            final(env).wf(),
            final(env).keeps_refs(old(env)),
            final(vm).is_attached(tid),
            old(vm).is_attached(tid) ==> final(vm).attached@ == old(vm).attached@,
            !old(vm).is_attached(tid) ==> final(vm).attached@ == old(vm).attached@.push(tid),
            input.cost() is Some && self.0.is_callable_in(old(env)) && old(env).has_room(
                input.cost()->Some_0 + error_cost(err) + 1,
            ) ==> r is Ok,
            r is Ok ==> one_more_call(final(env), old(env), self.0.0.0.inner),
            r is Err ==> final(env).calls@ == old(env).calls@,
    {
        if vm.get_env(tid).is_err() {
            let a = vm.attach_current_thread(tid);
            assert(a is Ok);
            assert(vm.attached@[vm.attached@.len() - 1] == tid);
        }
        self.execute_local(env, err, input)
    }

    /// Promotes the callback to a global one.
    pub fn into_global_callback(self, env: &mut AniEnv, holders: &mut Holders) -> (r: Result<
        GlobalRefCallback,
        AniError,
    >)
        requires
            old(env).wf(),
            old(holders).wf(old(env)),
        ensures
            final(env).wf(),
            final(holders).wf(final(env)),
            r is Ok <==> old(env).is_live(self.0.0.0.inner) && old(env).has_room(1),
            r is Ok ==> final(holders).holds(r->Ok_0),
    {
        self.0.into_global_callback(env, holders)
    }
}

/// The arguments of an error callback: the error object alone.
pub struct ErrorInput {
    pub code: i32,
    pub msg: String,
}

/// The arguments of an asynchronous callback: the error, or undefined, then
/// the arguments made from `input`.
pub struct AsyncInput<T> {
    pub err: Option<BusinessError>,
    pub input: T,
}

impl<T: InputVec> InputVec for AsyncInput<T> {
    open spec fn cost(&self) -> Option<nat> {
        match self.input.cost() {
            Some(c) => Some(c + if self.err is None {
                1nat
            } else {
                3nat
            }),
            None => None,
        }
    }

    open spec fn encoded_by(&self, env: &AniEnv, args: Seq<AniRef>) -> bool {
        &&& args.len() >= 1
        &&& self.err is None ==> env.value(args[0].inner) == Some(ManagedValue::Undefined)
        &&& self.err is Some ==> crate::callback::single_object(
            env,
            args.subrange(0, 1),
            business_error_class(),
        )
        &&& self.input.encoded_by(env, args.subrange(1, args.len() as int))
    }

    proof fn lemma_encoding_kept(&self, old: &AniEnv, new: &AniEnv, args: Seq<AniRef>) {
        crate::callback::lemma_kept_value(new, old, args[0].inner);
        if self.err is Some {
            crate::callback::lemma_single_object_kept(old, new, args.subrange(0, 1), business_error_class());
        }
        self.input.lemma_encoding_kept(old, new, args.subrange(1, args.len() as int));
    }

    fn input(&self, env: &mut AniEnv) -> (r: Result<Vec<AniRef>, AniError>) {
        let ghost start = *env;
        let e = match &self.err {
            None => env.new_local(ManagedValue::Undefined)?,
            Some(be) => env.serialize_business_error(be)?,
        };
        let ghost mid = *env;
        let mut rest = self.input.input(env)?;
        proof {
            crate::compound::lemma_extends_trans(&start, &mid, env);
        }
        let ghost rest_view = rest@;
        let mut args = vec![e];
        args.append(&mut rest);
        proof {
            crate::compound::lemma_extends_value(env, &mid, e.inner);
            assert(args@.subrange(1, args@.len() as int) =~= rest_view);
            assert(args@.subrange(0, 1) =~= seq![e]);
            assert(args@[0] == e);
        }
        Ok(args)
    }
}

impl InputVec for ErrorInput {
    open spec fn cost(&self) -> Option<nat> {
        Some(3)
    }

    open spec fn encoded_by(&self, env: &AniEnv, args: Seq<AniRef>) -> bool {
        args.len() == 1 && is_error_object(env, args[0].inner, self.code, self.msg@)
    }

    proof fn lemma_encoding_kept(&self, old: &AniEnv, new: &AniEnv, args: Seq<AniRef>) {
        lemma_error_object_kept(old, new, args[0].inner, self.code, self.msg@);
    }

    fn input(&self, env: &mut AniEnv) -> (r: Result<Vec<AniRef>, AniError>) {
        let e = BusinessError { code: self.code, msg: self.msg.clone() };
        let h = env.serialize_business_error(&e)?;
        let v = vec![h];
        assert(v@[0] == h);
        Ok(v)
    }
}

impl AniErrorCallback {
    /// Invokes the callback on the caller's environment with the error.
    pub fn execute_local(&self, env: &mut AniEnv, err: BusinessError) -> (r: Result<
        AniRef,
        AniError,
    >)
        requires
            old(env).wf(),
        ensures
            final(env).wf(),
            final(env).keeps_refs(old(env)),
            self.0.is_callable_in(old(env)) && old(env).has_room(4) ==> r is Ok,
            final(env).refs@.len() <= old(env).refs@.len() + 4,
            r is Ok ==> one_more_call(final(env), old(env), self.0.0.0.inner),
            r is Ok ==> final(env).calls@.last().args@.len() == 1 && is_error_object(
                final(env),
                final(env).calls@.last().args@[0].inner,
                err.code,
                err.msg@,
            ),
            r is Err ==> final(env).calls@ == old(env).calls@,
    {
        let input = ErrorInput { code: err.code, msg: err.msg };
        self.0.execute_local(env, &input)
    }

    /// Invokes the callback from thread `tid`, attaching the thread first
    /// when it holds no environment.
    pub fn execute_current(&self, vm: &mut AniVm, tid: u64, env: &mut AniEnv, err: BusinessError) -> (r: Result<
        AniRef,
        AniError,
    >)
        requires
            old(env).wf(),
        ensures
            final(env).wf(),
            final(env).keeps_refs(old(env)),
            final(vm).is_attached(tid),
            old(vm).is_attached(tid) ==> final(vm).attached@ == old(vm).attached@,
            !old(vm).is_attached(tid) ==> final(vm).attached@ == old(vm).attached@.push(tid),
            self.0.is_callable_in(old(env)) && old(env).has_room(4) ==> r is Ok,
            r is Ok ==> one_more_call(final(env), old(env), self.0.0.0.inner),
            r is Err ==> final(env).calls@ == old(env).calls@,
    {
        let input = ErrorInput { code: err.code, msg: err.msg };
        self.0.execute_current(vm, tid, env, &input)
    }

    /// Promotes the callback to a global one.
    pub fn into_global_callback(self, env: &mut AniEnv, holders: &mut Holders) -> (r: Result<
        GlobalRefCallback,
        AniError,
    >)
        requires
            old(env).wf(),
            old(holders).wf(old(env)),
        ensures
            final(env).wf(),
            final(holders).wf(final(env)),
            r is Ok <==> old(env).is_live(self.0.0.0.inner) && old(env).has_room(1),
            r is Ok ==> final(holders).holds(r->Ok_0),
    {
        self.0.into_global_callback(env, holders)
    }
}

} // verus!

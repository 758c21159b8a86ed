//! Typed wrappers around reference handles: objects and function objects.
use vstd::prelude::*;

use crate::env::{AniEnv, AniRef, ManagedValue};
use crate::error::AniError;

verus! {

/// A handle to a managed object.
#[derive(Clone, Copy, PartialEq, Eq, Structural, Debug)]
pub struct AniObject(pub AniRef);

/// A handle to a managed function object.
#[derive(Clone, Copy, PartialEq, Eq, Structural, Debug)]
pub struct AniFnObject(pub AniObject);

/// A global reference: registered with the runtime, retained across scopes
/// and threads until it is released. It cannot be copied, and releasing it
/// consumes it, so no handle of a released registration stays reachable
/// through it.
#[derive(Debug)]
pub struct GlobalRef {
    handle: AniRef,
}

impl AniObject {
    /// Wraps a raw handle without looking at it.
    pub fn from_raw(ptr: u64) -> (r: AniObject)
        ensures
            r.0.inner == ptr,
    {
        AniObject(AniRef::from_raw(ptr))
    }

    /// The raw handle.
    pub fn as_raw(&self) -> (r: u64)
        ensures
            r == self.0.inner,
    {
        self.0.as_raw()
    }

    /// Registers a global reference to this object.
    pub fn into_global(self, env: &mut AniEnv) -> (r: Result<GlobalRef, AniError>)
        requires
            old(env).wf(),
        ensures
            final(env).wf(),
            r is Ok <==> old(env).is_live(self.0.inner) && old(env).has_room(1),
            r is Err ==> *final(env) == *old(env),
            r is Ok ==> r->Ok_0.handle() == final(env).refs@.len() && final(env).refs@.len() == old(
                env,
            ).refs@.len() + 1,
            r is Ok ==> final(env).extends(old(env)) && final(env).is_global(r->Ok_0.handle())
                && final(env).value(r->Ok_0.handle()) == old(env).value(self.0.inner),
    {
        let g = env.create_global_ref(&self.0)?;
        Ok(GlobalRef { handle: g })
    }
}

impl AniFnObject {
    /// Wraps a raw handle without looking at it.
    pub fn from_raw(ptr: u64) -> (r: AniFnObject)
        ensures
            r.0.0.inner == ptr,
    {
        AniFnObject(AniObject::from_raw(ptr))
    }

    /// The raw handle.
    pub fn as_raw(&self) -> (r: u64)
        ensures
            r == self.0.0.inner,
    {
        self.0.as_raw()
    }

    /// Gives up the wrapper and returns the raw handle.
    pub fn into_raw(self) -> (r: u64)
        ensures
            r == self.0.0.inner,
    {
        self.0.0.into_raw()
    }

    /// Whether this handle reaches a function object in `env`.
    pub open spec fn is_callable_in(&self, env: &AniEnv) -> bool {
        env.value(self.0.0.inner) is Some && env.value(self.0.0.inner)->Some_0 is Function
    }

    /// Registers a global reference to this function object.
    pub fn into_global(self, env: &mut AniEnv) -> (r: Result<GlobalRef, AniError>)
        requires
            old(env).wf(),
        ensures
            final(env).wf(),
            r is Ok <==> old(env).is_live(self.0.0.inner) && old(env).has_room(1),
            r is Err ==> *final(env) == *old(env),
            r is Ok ==> r->Ok_0.handle() == final(env).refs@.len() && final(env).refs@.len() == old(
                env,
            ).refs@.len() + 1,
            r is Ok ==> final(env).extends(old(env)) && final(env).is_global(r->Ok_0.handle())
                && final(env).value(r->Ok_0.handle()) == old(env).value(self.0.0.inner),
    {
        self.0.into_global(env)
    }
}

impl GlobalRef {
    /// The raw handle of the registration.
    pub closed spec fn handle(&self) -> u64 {
        self.handle.inner
    }

    /// The raw handle of the global reference, while it is held.
    pub fn as_raw(&self) -> (r: u64)
        ensures
            r == self.handle(),
    {
        self.handle.inner
    }

    /// The handle, for passing the reference as a call argument while it is
    /// held.
    pub(crate) fn as_handle(&self) -> (r: AniRef)
        ensures
            r.inner == self.handle(),
    {
        self.handle
    }

    /// Hands the registration over to a shared holder slot, which releases it
    /// when its last holder goes.
    pub(crate) fn into_shared(self) -> (r: AniRef)
        ensures
            r.inner == self.handle(),
    {
        self.handle
    }

    /// Releases the registration; a second release of the same reference is
    /// refused by the runtime and changes nothing.
    pub fn release(self, env: &mut AniEnv) -> (r: Result<(), AniError>)
        requires
            old(env).wf(),
        ensures
            final(env).wf(),
            r is Ok <==> old(env).is_global(self.handle()),
            r is Err ==> *final(env) == *old(env),
            r is Ok ==> !final(env).is_live(self.handle()),
            r is Ok ==> final(env).objects@ == old(env).objects@ && final(env).calls@ == old(
                env,
            ).calls@ && final(env).refs@ == old(env).refs@.update(
                self.handle() - 1,
                crate::env::RefEntry { live: false, ..old(env).entry(self.handle()) },
            ),
    {
        env.delete_global_ref(&self.handle)
    }
}

impl AniEnv {
    /// Makes a new function object with identity `id`; the managed runtime
    /// hands such objects to native code as callback arguments.
    pub fn new_function(&mut self, id: u64) -> (r: Result<AniFnObject, AniError>)
        requires
            old(self).wf(),
        ensures
            final(self).wf(),
            r is Ok <==> old(self).has_room(1),
            r is Err ==> *final(self) == *old(self),
            r is Ok ==> final(self).extends(old(self)) && final(self).value(r->Ok_0.0.0.inner)
                == Some(ManagedValue::Function { id }),
            r is Ok ==> final(self).refs@.len() == old(self).refs@.len() + 1,
    {
        let h = self.new_local(ManagedValue::Function { id })?;
        Ok(AniFnObject(AniObject(h)))
    }
}

} // verus!

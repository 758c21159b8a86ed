//! The process-wide virtual machine: which native threads are attached to it
//! and so hold an environment.
use vstd::prelude::*;

use crate::error::AniError;

verus! {

/// Status of an attach or detach that does not fit the thread's state.
pub const STATUS_ATTACH: i32 = 1;

/// The virtual machine, as far as thread attachment goes.
pub struct AniVm {
    pub attached: Vec<u64>,
}

impl AniVm {
    /// Whether thread `tid` is attached.
    pub open spec fn is_attached(&self, tid: u64) -> bool {
        self.attached@.contains(tid)
    }

    /// A virtual machine with no thread attached.
    pub fn new() -> (r: AniVm)
        ensures
            forall|t: u64| !r.is_attached(t),
    {
        AniVm { attached: Vec::new() }
    }

    /// Where thread `tid` stands in the attachment list, if it is attached.
    fn position(&self, tid: u64) -> (r: Option<usize>)
        ensures
            r is Some <==> self.is_attached(tid),
            r is Some ==> r->Some_0 < self.attached@.len() && self.attached@[r->Some_0 as int]
                == tid,
    {
        let mut i: usize = 0;
        while i < self.attached.len()
            invariant
                i <= self.attached@.len(),
                forall|j: int| 0 <= j < i ==> self.attached@[j] != tid,
            decreases self.attached@.len() - i,
        {
            if self.attached[i] == tid {
                return Some(i);
            }
            i = i + 1;
        }
        None
    }

    /// Succeeds when thread `tid` already holds an environment.
    pub fn get_env(&self, tid: u64) -> (r: Result<(), AniError>)
        ensures
            r is Ok <==> self.is_attached(tid),
    {
        match self.position(tid) {
            Some(_) => Ok(()),
            None => Err(AniError::new("get_env", STATUS_ATTACH)),
        }
    }

    /// Attaches thread `tid`. Attaching is not idempotent: a thread that is
    /// already attached is refused.
    pub fn attach_current_thread(&mut self, tid: u64) -> (r: Result<(), AniError>)
        ensures
            r is Ok <==> !old(self).is_attached(tid),
            r is Ok ==> final(self).attached@ == old(self).attached@.push(tid),
            r is Err ==> *final(self) == *old(self),
    {
        match self.position(tid) {
            Some(_) => Err(AniError::new("attach_current_thread", STATUS_ATTACH)),
            None => {
                self.attached.push(tid);
                Ok(())
            },
        }
    }

    /// Detaches thread `tid`; fails when it is not attached.
    pub fn detach_current_thread(&mut self, tid: u64) -> (r: Result<(), AniError>)
        ensures
            r is Ok <==> old(self).is_attached(tid),
            r is Err ==> *final(self) == *old(self),
            r is Ok ==> exists|i: int|
                0 <= i < old(self).attached@.len() && old(self).attached@[i] == tid
                    && final(self).attached@ == old(self).attached@.remove(i),
    {
        match self.position(tid) {
            Some(i) => {
                self.attached.remove(i);
                Ok(())
            },
            None => Err(AniError::new("detach_current_thread", STATUS_ATTACH)),
        }
    }
}

} // verus!

//! Invocation away from the caller: the dedicated worker, which runs queued
//! invocations one by one in submission order, and spawned or pooled threads,
//! which attach themselves before they invoke.
use vstd::prelude::*;

use std::collections::VecDeque;

use crate::callback::{can_run, one_more_call, GlobalRefCallback, Holders, InputVec};
use crate::env::AniEnv;
use crate::env::AniRef;
use crate::objects::{AniFnObject, AniObject};
use crate::vm::AniVm;

verus! {

/// One queued invocation: the global reference of the function object and
/// the value its arguments are made from.
pub struct Job<T> {
    pub callback: AniRef,
    pub input: T,
}

/// The queue of the dedicated worker thread.
pub struct WorkerQueue<T> {
    pub pending: VecDeque<Job<T>>,
}

/// The calls of `env` from position `from` on are those of `jobs`, in
/// order: each calls its job's function with the arguments made from its
/// job's input.
pub open spec fn calls_follow_jobs<T: InputVec>(env: &AniEnv, from: int, jobs: Seq<Job<T>>) -> bool {
    &&& env.calls@.len() == from + jobs.len()
    &&& forall|i: int|
        0 <= i < jobs.len() ==> #[trigger] env.calls@[from + i].function
            == jobs[i].callback.inner
    &&& forall|i: int|
        0 <= i < jobs.len() ==> jobs[i].input.encoded_by(env, (#[trigger] env.calls@[from + i]).args@)
}

/// The references that running every job of `jobs` takes, where each
/// job's arguments have a known cost: arguments and result of each.
pub open spec fn total_cost<T: InputVec>(jobs: Seq<Job<T>>) -> Option<nat>
    decreases jobs.len(),
{
    if jobs.len() == 0 {
        Some(0)
    } else {
        match (jobs[0].input.cost(), total_cost(jobs.subrange(1, jobs.len() as int))) {
            (Some(a), Some(b)) => Some(a + 1 + b),
            _ => None,
        }
    }
}

/// Whether every job of `jobs` names a function object in `env`.
pub open spec fn all_callable<T>(env: &AniEnv, jobs: Seq<Job<T>>) -> bool {
    forall|i: int|
        0 <= i < jobs.len() ==> env.value(#[trigger] jobs[i].callback.inner) is Some
            && env.value(jobs[i].callback.inner)->Some_0 is Function
}

/// Invokes the function object of `g` on `env`, whatever thread it is.
fn invoke_global<T: InputVec>(g: AniRef, env: &mut AniEnv, input: &T) -> (r: bool)
    requires
        old(env).wf(),
    ensures
        final(env).wf(),
        final(env).keeps_refs(old(env)),
        can_run(old(env), g.inner, input) ==> r,
        input.cost() is Some ==> final(env).refs@.len() <= old(env).refs@.len()
            + input.cost()->Some_0 + 1,
        r ==> one_more_call(final(env), old(env), g.inner),
        r ==> input.encoded_by(final(env), final(env).calls@.last().args@),
        !r ==> final(env).calls@ == old(env).calls@,
{
    let f = AniFnObject(AniObject(g));
    f.execute_local(env, input).is_ok()
}

impl<T: InputVec> WorkerQueue<T> {
    /// An empty queue.
    pub fn new() -> (r: WorkerQueue<T>)
        ensures
            r.pending@.len() == 0,
    {
        WorkerQueue { pending: VecDeque::new() }
    }

    /// Queues an invocation behind those already queued.
    pub fn submit(&mut self, job: Job<T>)
        ensures
            final(self).pending@ == old(self).pending@.push(job),
    {
        self.pending.push_back(job);
    }

    /// Runs the oldest queued invocation. `None` when the queue is empty;
    /// otherwise whether the invocation succeeded. A failure only drops that
    /// invocation.
    pub fn run_next(&mut self, env: &mut AniEnv) -> (r: Option<bool>)
        requires
            old(env).wf(),
        ensures
            final(env).wf(),
            r is None <==> old(self).pending@.len() == 0,
            r is None ==> final(self).pending@ == old(self).pending@ && final(env).calls@ == old(
                env,
            ).calls@,
            final(env).keeps_refs(old(env)),
            r is Some ==> final(self).pending@ == old(self).pending@.drop_first(),
            old(self).pending@.len() > 0 && can_run(
                old(env),
                old(self).pending@[0].callback.inner,
                &old(self).pending@[0].input,
            ) ==> r == Some(true),
            old(self).pending@.len() > 0 && old(self).pending@[0].input.cost() is Some
                ==> final(env).refs@.len() <= old(env).refs@.len()
                + old(self).pending@[0].input.cost()->Some_0 + 1,
            r == Some(true) ==> one_more_call(
                final(env),
                old(env),
                old(self).pending@[0].callback.inner,
            ),
            r == Some(true) ==> old(self).pending@[0].input.encoded_by(
                final(env),
                final(env).calls@.last().args@,
            ),
            r == Some(false) ==> final(env).calls@ == old(env).calls@,
    {
        match self.pending.pop_front() {
            None => None,
            Some(job) => Some(invoke_global(job.callback, env, &job.input)),
        }
    }

    /// Runs every queued invocation in submission order and returns how many
    /// failed. When none failed, one call was made per queued invocation, in
    /// queue order.
    pub fn drain(&mut self, env: &mut AniEnv) -> (failures: usize)
        requires
            old(env).wf(),
        ensures
            final(env).wf(),
            final(self).pending@.len() == 0,
            final(env).keeps_refs(old(env)),
            failures == 0 ==> final(env).calls@.subrange(0, old(env).calls@.len() as int) == old(
                env,
            ).calls@,
            failures == 0 ==> calls_follow_jobs(final(env), old(env).calls@.len() as int, old(self).pending@),
            all_callable(old(env), old(self).pending@) && total_cost(old(self).pending@) is Some
                && old(env).has_room(total_cost(old(self).pending@)->Some_0 as int) ==> failures == 0,
    {
        let ghost start_env = *env;
        let ghost start_calls = env.calls@;
        let ghost jobs = self.pending@;
        assert(self.pending@ =~= jobs.subrange(0, jobs.len() as int));
        let total = self.pending.len();
        let mut failures: usize = 0;
        let mut done: usize = 0;
        while self.pending.len() > 0
            invariant
                env.wf(),
                env.keeps_refs(&start_env),
                jobs.len() == total,
                done <= jobs.len(),
                self.pending@ == jobs.subrange(done as int, jobs.len() as int),
                failures <= done,
                failures == 0 ==> env.calls@.subrange(0, start_calls.len() as int) == start_calls,
                failures == 0 ==> calls_follow_jobs(env, start_calls.len() as int, jobs.subrange(0, done as int)),
                start_env.wf(),
                all_callable(&start_env, jobs) && total_cost(jobs) is Some && start_env.has_room(
                    total_cost(jobs)->Some_0 as int,
                ) ==> {
                    &&& failures == 0
                    &&& all_callable(env, self.pending@)
                    &&& total_cost(self.pending@) is Some
                    &&& env.has_room(total_cost(self.pending@)->Some_0 as int)
                },
            decreases self.pending@.len(),
        {
            let ghost before = env.calls@;
            let ghost before_env = *env;
            let ghost front = self.pending@[0];
            let ghost before_pending = self.pending@;
            let ok = self.run_next(env);
            proof {
                crate::callback::lemma_keeps_refs_trans(&start_env, &before_env, env);
                if all_callable(&start_env, jobs) && total_cost(jobs) is Some && start_env.has_room(
                    total_cost(jobs)->Some_0 as int,
                ) {
                    let rest = before_pending.subrange(1, before_pending.len() as int);
                    assert(self.pending@ =~= rest);
                    assert(env.value(before_pending[0].callback.inner) is Some) by {
                        assert(all_callable(&before_env, before_pending));
                    }
                    assert forall|i: int| 0 <= i < rest.len() implies env.value(
                        #[trigger] rest[i].callback.inner,
                    ) is Some && env.value(rest[i].callback.inner)->Some_0 is Function by {
                        assert(rest[i] == before_pending[i + 1]);
                        assert(before_env.value(before_pending[i + 1].callback.inner) is Some);
                        crate::callback::lemma_kept_value(env, &before_env, rest[i].callback.inner);
                    }
                }
                assert(self.pending@ =~= jobs.subrange(done + 1, jobs.len() as int));
                assert(front == jobs[done as int]);
                if failures == 0 && ok == Some(true) {
                    assert(env.calls@.drop_last() == before);
                    assert forall|i: int| 0 <= i < start_calls.len() implies env.calls@[i] == start_calls[i] by {
                        assert(env.calls@.drop_last()[i] == before[i]);
                        assert(before.subrange(0, start_calls.len() as int)[i] == start_calls[i]);
                    }
                    assert(env.calls@.subrange(0, start_calls.len() as int) =~= start_calls);
                    let js = jobs.subrange(0, done + 1);
                    assert forall|i: int| 0 <= i < js.len() implies #[trigger] env.calls@[start_calls.len() + i].function == js[i].callback.inner by {
                        if i < done {
                            assert(env.calls@.drop_last()[start_calls.len() + i] == before[start_calls.len() + i]);
                            assert(jobs.subrange(0, done as int)[i] == js[i]);
                        }
                    }
                    assert forall|i: int| 0 <= i < js.len() implies js[i].input.encoded_by(env, (#[trigger] env.calls@[start_calls.len() + i]).args@) by {
                        if i < done {
                            assert(env.calls@.drop_last()[start_calls.len() + i] == before[start_calls.len() + i]);
                            assert(jobs.subrange(0, done as int)[i] == js[i]);
                            assert(js[i].input.encoded_by(&before_env, before_env.calls@[start_calls.len() + i].args@));
                            js[i].input.lemma_encoding_kept(&before_env, env, before_env.calls@[start_calls.len() + i].args@);
                        } else {
                            assert(js[i] == front);
                        }
                    }
                }
            }
            if ok != Some(true) {
                failures = failures + 1;
            }
            done = done + 1;
        }
        proof {
            assert(jobs.subrange(0, done as int) =~= jobs);
        }
        failures
    }
}

/// Runs one invocation on a spawned or pooled thread `tid`: the thread is
/// attached first unless it already is, and stays attached. The outcome is
/// only reported back, as there is no caller to hand an error to.
pub fn execute_spawned<T: InputVec>(
    vm: &mut AniVm,
    tid: u64,
    env: &mut AniEnv,
    job: &Job<T>,
) -> (r: bool)
    requires
        old(env).wf(),
    ensures
        final(env).wf(),
        final(vm).is_attached(tid),
        final(env).keeps_refs(old(env)),
        can_run(old(env), job.callback.inner, &job.input) ==> r,
        old(vm).is_attached(tid) ==> final(vm).attached@ == old(vm).attached@,
        !old(vm).is_attached(tid) ==> final(vm).attached@ == old(vm).attached@.push(tid),
        r ==> one_more_call(final(env), old(env), job.callback.inner),
        r ==> job.input.encoded_by(final(env), final(env).calls@.last().args@),
        !r ==> final(env).calls@ == old(env).calls@,
{
    if vm.get_env(tid).is_err() {
        let a = vm.attach_current_thread(tid);
        assert(a is Ok);
        assert(vm.attached@[vm.attached@.len() - 1] == tid);
    }
    invoke_global(job.callback, env, &job.input)
}

impl GlobalRefCallback {
    /// Runs the callback on thread `tid` as a spawned task does: attaching
    /// the thread when needed, and reporting only whether it ran.
    pub fn execute<T: InputVec>(
        &self,
        holders: &Holders,
        vm: &mut AniVm,
        tid: u64,
        env: &mut AniEnv,
        input: T,
    ) -> (r: bool)
        requires
            old(env).wf(),
            holders.holds(*self),
        ensures
            final(env).wf(),
            final(vm).is_attached(tid),
            old(vm).is_attached(tid) ==> final(vm).attached@ == old(vm).attached@,
            !old(vm).is_attached(tid) ==> final(vm).attached@ == old(vm).attached@.push(tid),
            final(env).keeps_refs(old(env)),
            can_run(old(env), holders.slots@[self.slot as int].global.inner, &input) ==> r,
            r ==> one_more_call(
                final(env),
                old(env),
                holders.slots@[self.slot as int].global.inner,
            ),
            r ==> input.encoded_by(final(env), final(env).calls@.last().args@),
            !r ==> final(env).calls@ == old(env).calls@,
    {
        let job = Job { callback: holders.global_of(self), input };
        execute_spawned(vm, tid, env, &job)
    }

    /// Hands the callback to the dedicated worker's queue.
    pub fn execute_collective<T: InputVec>(
        &self,
        holders: &Holders,
        queue: &mut WorkerQueue<T>,
        input: T,
    )
        requires
            holders.holds(*self),
        ensures
            final(queue).pending@.len() == old(queue).pending@.len() + 1,
            final(queue).pending@.drop_last() == old(queue).pending@,
            final(queue).pending@.last().callback == holders.slots@[self.slot as int].global,
            final(queue).pending@.last().input == input,
    {
        let job = Job { callback: holders.global_of(self), input };
        queue.submit(job);
    }
}

} // verus!

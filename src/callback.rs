//! Callbacks: function objects held locally or globally, the argument lists
//! they are called with, and the four ways of invoking them (on the caller's
//! environment, on the current thread after attaching it, on the dedicated
//! worker's queue, and on a spawned or pooled thread).
use vstd::prelude::*;

use crate::env::{AniEnv, AniRef, ManagedValue, RefEntry};
use crate::error::AniError;
use crate::objects::{AniFnObject, GlobalRef};
use crate::ser::Primitive;
use crate::vm::AniVm;

verus! {

/// A value that can be turned into the argument list of a call.
pub trait InputVec {
    /// How many references writing the arguments takes, where that is
    /// known: with that much room, writing them succeeds.
    spec fn cost(&self) -> Option<nat>;

    /// Whether `args` are handles of the arguments made from `self` in `env`.
    spec fn encoded_by(&self, env: &AniEnv, args: Seq<AniRef>) -> bool;

    /// Arguments stay the arguments while references and values are only
    /// added to.
    proof fn lemma_encoding_kept(&self, old: &AniEnv, new: &AniEnv, args: Seq<AniRef>)
        requires
            old.wf(),
            new.keeps_refs(old),
            self.encoded_by(old, args),
        ensures
            self.encoded_by(new, args),
    ;

    /// Writes the arguments to `env` and returns their handles; writing only
    /// adds to the environment.
    fn input(&self, env: &mut AniEnv) -> (r: Result<Vec<AniRef>, AniError>)
        requires
            old(env).wf(),
        ensures
            final(env).wf(),
            final(env).extends(old(env)),
            self.cost() is Some ==> final(env).refs@.len() <= old(env).refs@.len()
                + self.cost()->Some_0,
            self.cost() is Some && old(env).has_room(self.cost()->Some_0 as int) ==> r is Ok,
            r is Ok ==> self.encoded_by(final(env), r->Ok_0@),
    ;
}

/// Whether `args` is one handle, reaching `v` in `env`.
pub open spec fn single_value(env: &AniEnv, args: Seq<AniRef>, v: ManagedValue) -> bool {
    args.len() == 1 && env.value(args[0].inner) == Some(v)
}

/// Whether `args` is one handle, reaching an object of `class` in `env`.
pub open spec fn single_object(env: &AniEnv, args: Seq<AniRef>, class: Seq<char>) -> bool {
    &&& args.len() == 1
    &&& env.value(args[0].inner) is Some
    &&& env.value(args[0].inner)->Some_0 is Object
    &&& env.value(args[0].inner)->Some_0->class@ == class
}

/// A single object argument keeps its value while references and values are
/// only added to.
pub proof fn lemma_single_object_kept(old: &AniEnv, new: &AniEnv, args: Seq<AniRef>, class: Seq<char>)
    requires
        old.wf(),
        new.keeps_refs(old),
        single_object(old, args, class),
    ensures
        single_object(new, args, class),
{
    lemma_kept_value(new, old, args[0].inner);
}

/// A single argument keeps its value while references and values are only
/// added to.
pub proof fn lemma_single_value_kept(old: &AniEnv, new: &AniEnv, args: Seq<AniRef>, v: ManagedValue)
    requires
        old.wf(),
        new.keeps_refs(old),
        single_value(old, args, v),
    ensures
        single_value(new, args, v),
{
    lemma_kept_value(new, old, args[0].inner);
}

impl InputVec for () {
    open spec fn cost(&self) -> Option<nat> {
        Some(0)
    }

    open spec fn encoded_by(&self, env: &AniEnv, args: Seq<AniRef>) -> bool {
        args.len() == 0
    }

    proof fn lemma_encoding_kept(&self, old: &AniEnv, new: &AniEnv, args: Seq<AniRef>) {
        
    }

    fn input(&self, env: &mut AniEnv) -> (r: Result<Vec<AniRef>, AniError>) {
        Ok(Vec::new())
    }
}

impl InputVec for Primitive {
    open spec fn cost(&self) -> Option<nat> {
        Some(1)
    }

    open spec fn encoded_by(&self, env: &AniEnv, args: Seq<AniRef>) -> bool {
        single_value(env, args, crate::ser::box_primitive(*self))
    }

    proof fn lemma_encoding_kept(&self, old: &AniEnv, new: &AniEnv, args: Seq<AniRef>) {
        lemma_single_value_kept(old, new, args, crate::ser::box_primitive(*self));
    }

    fn input(&self, env: &mut AniEnv) -> (r: Result<Vec<AniRef>, AniError>) {
        let h = env.serialize_primitive(*self)?;
        let v = vec![h];
        assert(v@[0] == h);
        Ok(v)
    }
}

impl InputVec for String {
    open spec fn cost(&self) -> Option<nat> {
        Some(1)
    }

    open spec fn encoded_by(&self, env: &AniEnv, args: Seq<AniRef>) -> bool {
        single_value(env, args, ManagedValue::Str(*self))
    }

    proof fn lemma_encoding_kept(&self, old: &AniEnv, new: &AniEnv, args: Seq<AniRef>) {
        lemma_single_value_kept(old, new, args, ManagedValue::Str(*self));
    }

    fn input(&self, env: &mut AniEnv) -> (r: Result<Vec<AniRef>, AniError>) {
        let h = env.serialize_string(self.clone())?;
        let v = vec![h];
        assert(v@[0] == h);
        Ok(v)
    }
}

impl InputVec for AniRef {
    open spec fn cost(&self) -> Option<nat> {
        Some(0)
    }

    open spec fn encoded_by(&self, env: &AniEnv, args: Seq<AniRef>) -> bool {
        args == seq![*self]
    }

    proof fn lemma_encoding_kept(&self, old: &AniEnv, new: &AniEnv, args: Seq<AniRef>) {
        
    }

    fn input(&self, env: &mut AniEnv) -> (r: Result<Vec<AniRef>, AniError>) {
        let v = vec![*self];
        assert(v@ =~= seq![*self]);
        Ok(v)
    }
}

impl InputVec for GlobalRef {
    open spec fn cost(&self) -> Option<nat> {
        Some(0)
    }

    open spec fn encoded_by(&self, env: &AniEnv, args: Seq<AniRef>) -> bool {
        args.len() == 1 && args[0].inner == self.handle()
    }

    proof fn lemma_encoding_kept(&self, old: &AniEnv, new: &AniEnv, args: Seq<AniRef>) {
        
    }

    fn input(&self, env: &mut AniEnv) -> (r: Result<Vec<AniRef>, AniError>) {
        Ok(vec![self.as_handle()])
    }
}

/// Whether a call of `f` with the arguments of `input` is owed success in
/// `env`: `f` reaches a function object, and there is room for the
/// arguments and the result.
pub open spec fn can_run<T: InputVec>(env: &AniEnv, f: u64, input: &T) -> bool {
    &&& env.value(f) is Some
    &&& env.value(f)->Some_0 is Function
    &&& input.cost() is Some
    &&& env.has_room(input.cost()->Some_0 + 1int)
}

/// The calls of `new` are those of `old` and one more, a call of `f`.
pub open spec fn one_more_call(new: &AniEnv, old: &AniEnv, f: u64) -> bool {
    &&& new.calls@.len() == old.calls@.len() + 1
    &&& new.calls@.drop_last() == old.calls@
    &&& new.calls@.last().function == f
}

/// References only added keep holders consistent.
pub proof fn lemma_holders_kept(holders: &Holders, old: &AniEnv, new: &AniEnv)
    requires
        holders.wf(old),
        new.keeps_refs(old),
    ensures
        holders.wf(new),
{
    assert forall|i: int| 0 <= i < holders.slots@.len() && holders.slots@[i].count > 0 implies new.is_global(
        #[trigger] holders.slots@[i].global.inner,
    ) by {
        let h = holders.slots@[i].global.inner;
        assert(old.is_global(h));
        assert(new.refs@[h - 1] == old.refs@[h - 1]);
    }
}

/// A handle that was in force keeps its value while references and values
/// are only added to.
pub proof fn lemma_kept_value(new: &AniEnv, old: &AniEnv, h: u64)
    requires
        old.wf(),
        new.keeps_refs(old),
    ensures
        old.is_live(h) ==> new.value(h) == old.value(h),
{
    if old.is_live(h) {
        assert(new.refs@[h - 1] == old.refs@[h - 1]);
        assert(old.refs@[h - 1].object < old.objects@.len());
    }
}

/// Keeping references composes.
pub proof fn lemma_keeps_refs_trans(a: &AniEnv, b: &AniEnv, c: &AniEnv)
    requires
        b.keeps_refs(a),
        c.keeps_refs(b),
    ensures
        c.keeps_refs(a),
{
}

impl AniFnObject {
    /// Invokes the function object on the caller's environment.
    pub fn execute_local<T: InputVec>(&self, env: &mut AniEnv, input: &T) -> (r: Result<
        AniRef,
        AniError,
    >)
        requires
            old(env).wf(),
        ensures
            final(env).wf(),
            final(env).keeps_refs(old(env)),
            can_run(old(env), self.0.0.inner, input) ==> r is Ok,
            input.cost() is Some ==> final(env).refs@.len() <= old(env).refs@.len()
                + input.cost()->Some_0 + 1,
            r is Ok ==> one_more_call(final(env), old(env), self.0.0.inner),
            r is Ok ==> input.encoded_by(final(env), final(env).calls@.last().args@),
            r is Err ==> final(env).calls@ == old(env).calls@,
    {
        let ghost start = *env;
        let args = input.input(env)?;
        let ghost mid = *env;
        proof {
            crate::compound::lemma_extends_value(&mid, &start, self.0.0.inner);
        }
        let ghost args_view = args@;
        let r = env.function_object_call(&self.0.0, args);
        proof {
            lemma_keeps_refs_trans(&start, &mid, env);
            if r is Ok {
                input.lemma_encoding_kept(&mid, env, args_view);
            }
        }
        r
    }

    /// Invokes the function object from thread `tid`, attaching the thread
    /// first when it holds no environment; the thread stays attached.
    pub fn execute_current<T: InputVec>(
        &self,
        vm: &mut AniVm,
        tid: u64,
        env: &mut AniEnv,
        input: &T,
    ) -> (r: Result<AniRef, AniError>)
        requires
            old(env).wf(),
        ensures
            final(env).wf(),
            final(vm).is_attached(tid),
            old(vm).is_attached(tid) ==> *final(vm) == *old(vm),
            !old(vm).is_attached(tid) ==> final(vm).attached@ == old(vm).attached@.push(tid),
            final(env).keeps_refs(old(env)),
            can_run(old(env), self.0.0.inner, input) ==> r is Ok,
            r is Ok ==> one_more_call(final(env), old(env), self.0.0.inner),
            r is Ok ==> input.encoded_by(final(env), final(env).calls@.last().args@),
            r is Err ==> final(env).calls@ == old(env).calls@,
    {
        if vm.get_env(tid).is_err() {
            let a = vm.attach_current_thread(tid);
            assert(a is Ok);
            assert(vm.attached@.last() == tid);
        }
        self.execute_local(env, input)
    }

    /// Promotes the function object to a global reference held by one
    /// holder of `holders`.
    pub fn into_global_callback(self, env: &mut AniEnv, holders: &mut Holders) -> (r: Result<
        GlobalRefCallback,
        AniError,
    >)
        requires
            old(env).wf(),
            old(holders).wf(old(env)),
        ensures
            final(env).wf(),
            final(holders).wf(final(env)),
            r is Ok <==> old(env).is_live(self.0.0.inner) && old(env).has_room(1),
            r is Err ==> *final(env) == *old(env) && *final(holders) == *old(holders),
            r is Ok ==> {
                &&& final(env).extends(old(env))
                &&& final(env).refs@.len() == old(env).refs@.len() + 1
                &&& r->Ok_0.slot == old(holders).slots@.len()
                &&& final(holders).slots@ == old(holders).slots@.push(
                    HolderSlot { global: final(holders).slots@.last().global, count: 1 },
                )
                &&& final(env).value(final(holders).slots@.last().global.inner) == old(
                    env,
                ).value(self.0.0.inner)
            },
    {
        let g = self.into_global(env)?;
        proof {
            assert forall|i: int| 0 <= i < holders.slots@.len() && holders.slots@[i].count
                > 0 implies env.is_global(#[trigger] holders.slots@[i].global.inner) by {
                assert(old(env).is_global(holders.slots@[i].global.inner));
                let h = holders.slots@[i].global.inner;
                assert(env.refs@[h - 1] == old(env).refs@[h - 1]);
            }
        }
        let h = g.into_shared();
        let slot = holders.slots.len();
        let ghost prev = holders.slots@;
        holders.slots.push(HolderSlot { global: h, count: 1 });
        proof {
            assert forall|i: int| 0 <= i < prev.len() && prev[i].count > 0 implies #[trigger] prev[i].global != h by {
                assert(old(env).is_global(prev[i].global.inner));
            }
            assert(holders.slots@[slot as int] == HolderSlot { global: h, count: 1 });
            assert forall|i: int, j: int|
                0 <= i < holders.slots@.len() && 0 <= j < holders.slots@.len() && i != j
                    && holders.slots@[i].count > 0 && holders.slots@[j].count > 0
                    implies #[trigger] holders.slots@[i].global != #[trigger] holders.slots@[j].global by {
                if i == slot {
                    assert(holders.slots@[j] == prev[j]);
                } else if j == slot {
                    assert(holders.slots@[i] == prev[i]);
                } else {
                    assert(holders.slots@[i] == prev[i]);
                    assert(holders.slots@[j] == prev[j]);
                }
            }
        }
        Ok(GlobalRefCallback { slot })
    }
}

/// A callback as first received: a function object with the local scope of
/// the call that received it.
pub struct Callback {
    pub inner: AniFnObject,
}

impl Callback {
    /// Wraps a function object.
    pub fn new(inner: AniFnObject) -> (r: Callback)
        ensures
            r.inner == inner,
    {
        Callback { inner }
    }

    /// Promotes the callback to a global one, retainable across scopes.
    pub fn into_global(self, env: &mut AniEnv, holders: &mut Holders) -> (r: Result<
        GlobalCallback,
        AniError,
    >)
        requires
            old(env).wf(),
            old(holders).wf(old(env)),
        ensures
            final(env).wf(),
            final(holders).wf(final(env)),
            r is Ok <==> old(env).is_live(self.inner.0.0.inner) && old(env).has_room(1),
            r is Err ==> *final(env) == *old(env) && *final(holders) == *old(holders),
            r is Ok ==> final(holders).holds(r->Ok_0) && final(holders).slots@[r->Ok_0.slot as int].count == 1,
            r is Ok ==> {
                &&& final(env).extends(old(env))
                &&& final(env).refs@.len() == old(env).refs@.len() + 1
                &&& r->Ok_0.slot == old(holders).slots@.len()
                &&& final(holders).slots@.drop_last() == old(holders).slots@
                &&& final(env).is_global(final(holders).slots@.last().global.inner)
                &&& final(env).value(final(holders).slots@.last().global.inner) == old(env).value(
                    self.inner.0.0.inner,
                )
            },
    {
        let r = self.inner.into_global_callback(env, holders);
        proof {
            if r is Ok {
                assert(holders.slots@.drop_last() =~= old(holders).slots@);
                assert(holders.slots@.last().count > 0);
            }
        }
        r
    }

    /// Invokes the callback on the caller's environment.
    pub fn execute_local<T: InputVec>(&self, env: &mut AniEnv, input: &T) -> (r: Result<
        AniRef,
        AniError,
    >)
        requires
            old(env).wf(),
        ensures
            final(env).wf(),
            final(env).keeps_refs(old(env)),
            can_run(old(env), self.inner.0.0.inner, input) ==> r is Ok,
            r is Ok ==> one_more_call(final(env), old(env), self.inner.0.0.inner),
            r is Ok ==> input.encoded_by(final(env), final(env).calls@.last().args@),
            r is Err ==> final(env).calls@ == old(env).calls@,
    {
        self.inner.execute_local(env, input)
    }

    /// Invokes the callback from thread `tid`. A thread that was not attached
    /// is attached for the call and detached after it, so the thread's
    /// attachment is as it was.
    pub fn execute_current_thread<T: InputVec>(
        &self,
        vm: &mut AniVm,
        tid: u64,
        env: &mut AniEnv,
        input: &T,
    ) -> (r: Result<AniRef, AniError>)
        requires
            old(env).wf(),
        ensures
            final(env).wf(),
            final(vm).attached@ == old(vm).attached@,
            final(env).keeps_refs(old(env)),
            can_run(old(env), self.inner.0.0.inner, input) ==> r is Ok,
            r is Ok ==> one_more_call(final(env), old(env), self.inner.0.0.inner),
            r is Ok ==> input.encoded_by(final(env), final(env).calls@.last().args@),
            r is Err ==> final(env).calls@ == old(env).calls@,
    {
        if vm.get_env(tid).is_ok() {
            return self.execute_local(env, input);
        }
        let ghost before = *vm;
        let a = vm.attach_current_thread(tid);
        assert(a is Ok);
        assert(vm.attached@[vm.attached@.len() - 1] == tid);
        let res = self.execute_local(env, input);
        let d = vm.detach_current_thread(tid);
        proof {
            assert(d is Ok);
            let pushed = before.attached@.push(tid);
            let i = choose|i: int|
                0 <= i < pushed.len() && pushed[i] == tid && vm.attached@ == pushed.remove(i);
            if i < before.attached@.len() {
                assert(before.attached@[i] == tid);
                assert(before.is_attached(tid));
            }
            assert(vm.attached@ =~= before.attached@);
        }
        res
    }
}

/// One shared global reference and the number of holders that retain it.
#[derive(Clone, Copy, PartialEq, Eq, Structural)]
pub struct HolderSlot {
    pub global: AniRef,
    pub count: usize,
}

/// The shared global references of callbacks, each with its holder count.
/// A registration is released when its last holder drops it.
pub struct Holders {
    pub slots: Vec<HolderSlot>,
}

/// A global callback: one holder of a shared global reference to a function
/// object, safe to send to other threads.
#[derive(PartialEq, Eq, Structural)]
pub struct GlobalRefCallback {
    pub slot: usize,
}

/// A callback promoted from a `Callback`: a holder like any other.
pub type GlobalCallback = GlobalRefCallback;

/// The slots after one more holder of slot `i`.
pub open spec fn cloned_slots(s: Seq<HolderSlot>, i: int) -> Seq<HolderSlot> {
    s.update(i, HolderSlot { count: (s[i].count + 1) as usize, ..s[i] })
}

/// The slots after one holder of slot `i` is dropped. The last holder's
/// drop also clears the slot's handle, so a released registration is kept
/// nowhere.
pub open spec fn dropped_slots(s: Seq<HolderSlot>, i: int) -> Seq<HolderSlot> {
    if s[i].count == 1 {
        s.update(i, HolderSlot { count: 0, global: AniRef { inner: 0 } })
    } else {
        s.update(i, HolderSlot { count: (s[i].count - 1) as usize, ..s[i] })
    }
}

/// The slots after `n` clones of a holder of slot `i`.
pub open spec fn clone_n(s: Seq<HolderSlot>, i: int, n: nat) -> Seq<HolderSlot>
    decreases n,
{
    if n == 0 {
        s
    } else {
        cloned_slots(clone_n(s, i, (n - 1) as nat), i)
    }
}

/// The slots after `n` holders of slot `i` are dropped.
pub open spec fn drop_n(s: Seq<HolderSlot>, i: int, n: nat) -> Seq<HolderSlot>
    decreases n,
{
    if n == 0 {
        s
    } else {
        dropped_slots(drop_n(s, i, (n - 1) as nat), i)
    }
}

impl Holders {
    /// Every slot that still has a holder names a registered global
    /// reference.
    pub open spec fn wf(&self, env: &AniEnv) -> bool {
        &&& forall|i: int|
            0 <= i < self.slots@.len() && self.slots@[i].count > 0 ==> env.is_global(
                #[trigger] self.slots@[i].global.inner,
            )
        &&& forall|i: int, j: int|
            0 <= i < self.slots@.len() && 0 <= j < self.slots@.len() && i != j
                && self.slots@[i].count > 0 && self.slots@[j].count > 0
                ==> #[trigger] self.slots@[i].global != #[trigger] self.slots@[j].global
    }

    /// Whether `cb` is a holder of a slot that is still held.
    pub open spec fn holds(&self, cb: GlobalRefCallback) -> bool {
        cb.slot < self.slots@.len() && self.slots@[cb.slot as int].count > 0
    }

    /// No shared references yet.
    pub fn new() -> (r: Holders)
        ensures
            r.slots@.len() == 0,
    {
        Holders { slots: Vec::new() }
    }

    /// A second holder of the same registration: only the count grows.
    pub fn clone_callback(&mut self, cb: &GlobalRefCallback) -> (r: GlobalRefCallback)
        requires
            old(self).holds(*cb),
            old(self).slots@[cb.slot as int].count < usize::MAX,
        ensures
            r == *cb,
            final(self).slots@ == cloned_slots(old(self).slots@, cb.slot as int),
    {
        let s = self.slots[cb.slot];
        self.slots.set(cb.slot, HolderSlot { global: s.global, count: s.count + 1 });
        GlobalRefCallback { slot: cb.slot }
    }

    /// Drops one holder. The registration is released exactly when the last
    /// holder goes; a failed release is swallowed, as a drop cannot fail.
    pub fn drop_callback(&mut self, env: &mut AniEnv, cb: GlobalRefCallback)
        requires
            old(env).wf(),
            old(self).wf(old(env)),
            old(self).holds(cb),
        ensures
            final(env).wf(),
            final(self).wf(final(env)),
            final(self).slots@ == dropped_slots(old(self).slots@, cb.slot as int),
            final(env).calls@ == old(env).calls@,
            final(env).objects@ == old(env).objects@,
            final(env).is_live(old(self).slots@[cb.slot as int].global.inner) <==> old(
                self,
            ).slots@[cb.slot as int].count > 1,
            old(self).slots@[cb.slot as int].count > 1 ==> *final(env) == *old(env),
            old(self).slots@[cb.slot as int].count == 1 ==> final(env).refs@ == old(env).refs@.update(
                old(self).slots@[cb.slot as int].global.inner - 1,
                RefEntry { live: false, ..old(env).entry(old(self).slots@[cb.slot as int].global.inner) },
            ),
    {
        let s = self.slots[cb.slot];
        if s.count == 1 {
            self.slots.set(cb.slot, HolderSlot { global: AniRef::null(), count: 0 });
        } else {
            self.slots.set(cb.slot, HolderSlot { global: s.global, count: s.count - 1 });
        }
        if s.count == 1 {
            let ghost before = *env;
            let _ = env.delete_global_ref(&s.global);
            proof {
                assert forall|i: int| 0 <= i < self.slots@.len() && self.slots@[i].count
                    > 0 implies env.is_global(#[trigger] self.slots@[i].global.inner) by {
                    let h = self.slots@[i].global.inner;
                    assert(before.is_global(h));
                    if h != s.global.inner {
                        assert(env.refs@[h - 1] == before.refs@[h - 1]);
                    } else {
                        assert(i != cb.slot);
                        assert(old(self).slots@[i].global == old(self).slots@[cb.slot as int].global);
                        assert(false);
                    }
                }
            }
        }
    }

    /// The global reference of a held callback.
    pub fn global_of(&self, cb: &GlobalRefCallback) -> (r: AniRef)
        requires
            self.holds(*cb),
        ensures
            r == self.slots@[cb.slot as int].global,
    {
        self.slots[cb.slot].global
    }
}

/// Cloning a holder `n` times adds `n` to its slot's count and changes
/// nothing else.
pub proof fn lemma_clone_n(s: Seq<HolderSlot>, i: int, n: nat)
    requires
        0 <= i < s.len(),
        s[i].count + n <= usize::MAX,
    ensures
        clone_n(s, i, n).len() == s.len(),
        clone_n(s, i, n)[i] == (HolderSlot { count: (s[i].count + n) as usize, ..s[i] }),
        forall|j: int| 0 <= j < s.len() && j != i ==> clone_n(s, i, n)[j] == s[j],
    decreases n,
{
    if n > 0 {
        lemma_clone_n(s, i, (n - 1) as nat);
    }
}

/// Dropping `n` holders of a slot takes `n` from its count and changes
/// nothing else.
pub proof fn lemma_drop_n(s: Seq<HolderSlot>, i: int, n: nat)
    requires
        0 <= i < s.len(),
        n <= s[i].count,
    ensures
        drop_n(s, i, n).len() == s.len(),
        drop_n(s, i, n)[i].count == s[i].count - n,
        n < s[i].count ==> drop_n(s, i, n)[i].global == s[i].global,
        n == s[i].count && n > 0 ==> drop_n(s, i, n)[i].global.inner == 0,
        forall|j: int| 0 <= j < s.len() && j != i ==> drop_n(s, i, n)[j] == s[j],
    decreases n,
{
    if n > 0 {
        lemma_drop_n(s, i, (n - 1) as nat);
    }
}

/// A shared registration outlives every holder but the last: from one
/// holder, `n` clones followed by `n` drops leave the slot held once, so
/// `drop_callback` has not released it; one more drop leaves no holder, and
/// that drop is the one that releases it.
pub proof fn lemma_last_holder_releases(s: Seq<HolderSlot>, i: int, n: nat)
    requires
        0 <= i < s.len(),
        s[i].count == 1,
        1 + n <= usize::MAX,
    ensures
        drop_n(clone_n(s, i, n), i, n)[i].count == 1,
        drop_n(clone_n(s, i, n), i, n + 1)[i].count == 0,
        forall|k: nat| k < n ==> (#[trigger] drop_n(clone_n(s, i, n), i, k))[i].count > 1,
{
    lemma_clone_n(s, i, n);
    let c = clone_n(s, i, n);
    lemma_drop_n(c, i, n);
    lemma_drop_n(c, i, n + 1);
    assert forall|k: nat| k < n implies (#[trigger] drop_n(clone_n(s, i, n), i, k))[i].count > 1 by {
        lemma_drop_n(c, i, k);
    }
}

} // verus!

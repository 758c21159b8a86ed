//! The environment through which every operation on managed objects goes: a
//! heap of managed values, the table of references that point into it, and a
//! log of the function objects that were invoked.
use vstd::prelude::*;

use crate::error::AniError;

verus! {

/// Status of a call that was handed a handle of the wrong kind of value.
pub const STATUS_INVALID_TYPE: i32 = 3;

/// Status of a call that was handed a released or unknown reference.
pub const STATUS_INCORRECT_REF: i32 = 5;

/// Status of a lookup that found nothing.
pub const STATUS_NOT_FOUND: i32 = 7;

/// Status of a call that would exceed the reference table.
pub const STATUS_OUT_OF_REF: i32 = 9;

/// Status of an index outside an array.
pub const STATUS_OUT_OF_RANGE: i32 = 11;

/// How many references an environment can hold.
pub const MAX_REFS: usize = 16777216;

/// A handle to a managed value. Zero is the null handle; any other value
/// names an entry of the environment's reference table.
#[derive(Clone, Copy, PartialEq, Eq, Structural, Debug)]
pub struct AniRef {
    pub inner: u64,
}

impl AniRef {
    /// Wraps a raw handle without looking at it.
    pub fn from_raw(ptr: u64) -> (r: AniRef)
        ensures
            r.inner == ptr,
    {
        AniRef { inner: ptr }
    }

    /// The raw handle, for passing back through the native interface.
    pub fn as_raw(&self) -> (r: u64)
        ensures
            r == self.inner,
    {
        self.inner
    }

    /// Gives up the wrapper and returns the raw handle.
    pub fn into_raw(self) -> (r: u64)
        ensures
            r == self.inner,
    {
        self.inner
    }

    /// The null handle.
    pub fn null() -> (r: AniRef)
        ensures
            r.inner == 0,
    {
        AniRef::from_raw(0)
    }
}

/// The flavour of a reference: bound to the current call scope, registered
/// with the runtime until it is released, or a non-owning observer that must
/// be resolved before use.
#[derive(Clone, Copy, PartialEq, Eq, Structural, Debug)]
pub enum RefKind {
    Local,
    Global,
    Weak,
}

/// An entry of the reference table: the object it points to, its flavour,
/// and whether it is still in force.
#[derive(Clone, Copy, PartialEq, Eq, Structural, Debug)]
pub struct RefEntry {
    pub object: usize,
    pub kind: RefKind,
    pub live: bool,
}

/// A value as the managed runtime holds it.
#[derive(Debug)]
pub enum ManagedValue {
    Undefined,
    Null,
    Boolean(bool),
    Byte(i8),
    Short(i16),
    Int(i32),
    Long(i64),
    Char(u16),
    Str(String),
    BoolArray(Vec<bool>),
    ByteArray(Vec<i8>),
    ShortArray(Vec<i16>),
    IntArray(Vec<i32>),
    LongArray(Vec<i64>),
    RefArray(Vec<AniRef>),
    ArrayBuffer(Vec<u8>),
    Record(Vec<(AniRef, AniRef)>),
    Object { class: String, fields: Vec<AniRef> },
    EnumItem { enum_name: String, index: usize },
    Function { id: u64 },
}

/// One call of a function object: the object called and its arguments.
pub struct Invocation {
    pub function: u64,
    pub args: Vec<AniRef>,
}

/// The per-thread environment: the managed heap, the reference table, and
/// the record of invoked function objects.
pub struct AniEnv {
    pub objects: Vec<ManagedValue>,
    pub refs: Vec<RefEntry>,
    pub calls: Vec<Invocation>,
}

/// The name of the runtime class of a managed value.
pub open spec fn class_of(v: ManagedValue) -> Seq<char> {
    match v {
        ManagedValue::Undefined => "std.core.Undefined"@,
        ManagedValue::Null => "std.core.Null"@,
        ManagedValue::Boolean(_) => "std.core.Boolean"@,
        ManagedValue::Byte(_) => "std.core.Byte"@,
        ManagedValue::Short(_) => "std.core.Short"@,
        ManagedValue::Int(_) => "std.core.Int"@,
        ManagedValue::Long(_) => "std.core.Long"@,
        ManagedValue::Char(_) => "std.core.Char"@,
        ManagedValue::Str(_) => "std.core.String"@,
        ManagedValue::BoolArray(_) => "escompat.Array"@,
        ManagedValue::ByteArray(_) => "escompat.Array"@,
        ManagedValue::ShortArray(_) => "escompat.Array"@,
        ManagedValue::IntArray(_) => "escompat.Array"@,
        ManagedValue::LongArray(_) => "escompat.Array"@,
        ManagedValue::RefArray(_) => "escompat.Array"@,
        ManagedValue::ArrayBuffer(_) => "escompat.ArrayBuffer"@,
        ManagedValue::Record(_) => "escompat.Record"@,
        ManagedValue::Object { class, .. } => class@,
        ManagedValue::EnumItem { enum_name, .. } => enum_name@,
        ManagedValue::Function { .. } => "std.core.Function"@,
    }
}

/// The runtime class of a managed value, as a string.
pub fn class_name(v: &ManagedValue) -> (r: String)
    ensures
        r@ == class_of(*v),
{
    match v {
        ManagedValue::Undefined => String::from_str("std.core.Undefined"),
        ManagedValue::Null => String::from_str("std.core.Null"),
        ManagedValue::Boolean(_) => String::from_str("std.core.Boolean"),
        ManagedValue::Byte(_) => String::from_str("std.core.Byte"),
        ManagedValue::Short(_) => String::from_str("std.core.Short"),
        ManagedValue::Int(_) => String::from_str("std.core.Int"),
        ManagedValue::Long(_) => String::from_str("std.core.Long"),
        ManagedValue::Char(_) => String::from_str("std.core.Char"),
        ManagedValue::Str(_) => String::from_str("std.core.String"),
        ManagedValue::BoolArray(_) => String::from_str("escompat.Array"),
        ManagedValue::ByteArray(_) => String::from_str("escompat.Array"),
        ManagedValue::ShortArray(_) => String::from_str("escompat.Array"),
        ManagedValue::IntArray(_) => String::from_str("escompat.Array"),
        ManagedValue::LongArray(_) => String::from_str("escompat.Array"),
        ManagedValue::RefArray(_) => String::from_str("escompat.Array"),
        ManagedValue::ArrayBuffer(_) => String::from_str("escompat.ArrayBuffer"),
        ManagedValue::Record(_) => String::from_str("escompat.Record"),
        ManagedValue::Object { class, .. } => class.clone(),
        ManagedValue::EnumItem { enum_name, .. } => enum_name.clone(),
        ManagedValue::Function { .. } => String::from_str("std.core.Function"),
    }
}

impl AniEnv {
    /// Every reference points into the heap, and the heap never holds more
    /// values than there are references.
    pub open spec fn wf(&self) -> bool {
        &&& self.refs@.len() <= MAX_REFS
        &&& self.objects@.len() <= self.refs@.len()
        &&& forall|i: int|
            0 <= i < self.refs@.len() ==> #[trigger] self.refs@[i].object < self.objects@.len()
    }

    /// Whether `h` names a strong reference that is still in force. A weak
    /// reference reaches nothing until it is resolved.
    pub open spec fn is_live(&self, h: u64) -> bool {
        1 <= h <= self.refs@.len() && self.refs@[h - 1].live && self.refs@[h - 1].kind
            != RefKind::Weak
    }

    /// Whether some strong reference in force reaches heap slot `object`.
    pub open spec fn is_reachable(&self, object: usize) -> bool {
        exists|i: int|
            0 <= i < self.refs@.len() && self.refs@[i].live && self.refs@[i].kind != RefKind::Weak
                && #[trigger] self.refs@[i].object == object
    }

    /// The entry that handle `h` names.
    pub open spec fn entry(&self, h: u64) -> RefEntry {
        self.refs@[h - 1]
    }

    /// The value that handle `h` reaches, if it is in force.
    pub open spec fn value(&self, h: u64) -> Option<ManagedValue> {
        if self.is_live(h) {
            Some(self.objects@[self.refs@[h - 1].object as int])
        } else {
            None
        }
    }

    /// Whether `h` is a global reference that is still registered.
    pub open spec fn is_global(&self, h: u64) -> bool {
        self.is_live(h) && self.refs@[h - 1].kind == RefKind::Global
    }

    /// Whether there is room for `k` more references.
    pub open spec fn has_room(&self, k: int) -> bool {
        self.refs@.len() + k <= MAX_REFS
    }

    /// `self` is `old` with values and references only added: every handle
    /// keeps what it reached.
    pub open spec fn extends(&self, old: &AniEnv) -> bool {
        &&& old.objects@.len() <= self.objects@.len()
        &&& old.refs@.len() <= self.refs@.len()
        &&& forall|i: int| 0 <= i < old.objects@.len() ==> self.objects@[i] == old.objects@[i]
        &&& forall|i: int| 0 <= i < old.refs@.len() ==> self.refs@[i] == old.refs@[i]
        &&& self.calls@ == old.calls@
    }

    /// Every reference and value of `old` is in `self` unchanged: they were
    /// only added to.
    pub open spec fn keeps_refs(&self, old: &AniEnv) -> bool {
        &&& old.refs@.len() <= self.refs@.len()
        &&& forall|i: int| 0 <= i < old.refs@.len() ==> self.refs@[i] == old.refs@[i]
        &&& old.objects@.len() <= self.objects@.len()
        &&& forall|i: int| 0 <= i < old.objects@.len() ==> self.objects@[i] == old.objects@[i]
    }

    /// Whether the environment is well formed; callers outside verified
    /// code test this before handing the environment to the library.
    pub fn is_well_formed(&self) -> (r: bool)
        ensures
            r == self.wf(),
    {
        if self.refs.len() > MAX_REFS || self.objects.len() > self.refs.len() {
            return false;
        }
        let mut i: usize = 0;
        while i < self.refs.len()
            invariant
                i <= self.refs@.len(),
                forall|j: int| 0 <= j < i ==> #[trigger] self.refs@[j].object < self.objects@.len(),
            decreases self.refs@.len() - i,
        {
            if self.refs[i].object >= self.objects.len() {
                return false;
            }
            i = i + 1;
        }
        true
    }

    /// An empty environment.
    pub fn new() -> (r: AniEnv)
        ensures
            r.wf(),
            r.objects@.len() == 0,
            r.refs@.len() == 0,
            r.calls@.len() == 0,
    {
        AniEnv { objects: Vec::new(), refs: Vec::new(), calls: Vec::new() }
    }

    /// Puts `v` on the heap and returns a new local reference to it; fails
    /// when the reference table is full.
    pub fn new_local(&mut self, v: ManagedValue) -> (r: Result<AniRef, AniError>)
        requires
            old(self).wf(),
        ensures
            final(self).wf(),
            old(self).has_room(1) <==> r is Ok,
            r is Err ==> *final(self) == *old(self) && r->Err_0.status == STATUS_OUT_OF_REF,
            r is Ok ==> {
                &&& final(self).extends(old(self))
                &&& final(self).refs@.len() == old(self).refs@.len() + 1
                &&& r->Ok_0.inner == final(self).refs@.len()
                &&& final(self).value(r->Ok_0.inner) == Some(v)
                &&& final(self).entry(r->Ok_0.inner).kind == RefKind::Local
                &&& final(self).entry(r->Ok_0.inner).object == old(self).objects@.len()
            },
    {
        if self.refs.len() >= MAX_REFS {
            return Err(AniError::new("new_local", STATUS_OUT_OF_REF));
        }
        let index = self.objects.len();
        self.objects.push(v);
        self.refs.push(RefEntry { object: index, kind: RefKind::Local, live: true });
        let h = self.refs.len() as u64;
        assert(self.refs@[h - 1].object == index);
        Ok(AniRef { inner: h })
    }

    /// The value a handle reaches; fails on the null handle and on a handle
    /// that is unknown or released.
    pub fn value_of(&self, r: &AniRef) -> (res: Result<&ManagedValue, AniError>)
        requires
            self.wf(),
        ensures
            self.is_live(r.inner) <==> res is Ok,
            res is Ok ==> Some(*res->Ok_0) == self.value(r.inner),
            res is Err ==> res->Err_0.status == STATUS_INCORRECT_REF,
    {
        if r.inner == 0 || r.inner > self.refs.len() as u64 {
            return Err(AniError::new("value_of", STATUS_INCORRECT_REF));
        }
        let e = self.refs[(r.inner - 1) as usize];
        if !e.live || e.kind == RefKind::Weak {
            return Err(AniError::new("value_of", STATUS_INCORRECT_REF));
        }
        Ok(&self.objects[e.object])
    }

    /// Registers a new global reference to what `r` reaches.
    pub fn create_global_ref(&mut self, r: &AniRef) -> (res: Result<AniRef, AniError>)
        requires
            old(self).wf(),
        ensures
            final(self).wf(),
            res is Ok <==> (old(self).is_live(r.inner) && old(self).has_room(1)),
            res is Err ==> *final(self) == *old(self),
            res is Ok ==> {
                &&& final(self).extends(old(self))
                &&& final(self).refs@.len() == old(self).refs@.len() + 1
                &&& res->Ok_0.inner == final(self).refs@.len()
                &&& final(self).is_global(res->Ok_0.inner)
                &&& final(self).entry(res->Ok_0.inner).object == old(self).entry(r.inner).object
                &&& final(self).value(res->Ok_0.inner) == old(self).value(r.inner)
            },
    {
        if r.inner == 0 || r.inner > self.refs.len() as u64 {
            return Err(AniError::new("create_global_ref", STATUS_INCORRECT_REF));
        }
        let e = self.refs[(r.inner - 1) as usize];
        if !e.live || e.kind == RefKind::Weak {
            return Err(AniError::new("create_global_ref", STATUS_INCORRECT_REF));
        }
        if self.refs.len() >= MAX_REFS {
            return Err(AniError::new("create_global_ref", STATUS_OUT_OF_REF));
        }
        self.refs.push(RefEntry { object: e.object, kind: RefKind::Global, live: true });
        Ok(AniRef { inner: self.refs.len() as u64 })
    }

    /// Releases a global reference. Fails, changing nothing, where `g` is not
    /// a registered global reference, so a second release is refused.
    pub fn delete_global_ref(&mut self, g: &AniRef) -> (res: Result<(), AniError>)
        requires
            old(self).wf(),
        ensures
            final(self).wf(),
            res is Ok <==> old(self).is_global(g.inner),
            res is Err ==> *final(self) == *old(self),
            res is Ok ==> {
                &&& final(self).objects@ == old(self).objects@
                &&& final(self).calls@ == old(self).calls@
                &&& final(self).refs@ == old(self).refs@.update(
                    g.inner - 1,
                    RefEntry { live: false, ..old(self).entry(g.inner) },
                )
                &&& !final(self).is_live(g.inner)
            },
    {
        if g.inner == 0 || g.inner > self.refs.len() as u64 {
            return Err(AniError::new("delete_global_ref", STATUS_INCORRECT_REF));
        }
        let i = (g.inner - 1) as usize;
        let e = self.refs[i];
        if !e.live || e.kind != RefKind::Global {
            return Err(AniError::new("delete_global_ref", STATUS_INCORRECT_REF));
        }
        self.refs.set(i, RefEntry { object: e.object, kind: e.kind, live: false });
        Ok(())
    }

    /// Ends a local reference, as the end of its scope does. Fails, changing
    /// nothing, where `r` is not a local reference in force.
    pub fn delete_local_ref(&mut self, r: &AniRef) -> (res: Result<(), AniError>)
        requires
            old(self).wf(),
        ensures
            final(self).wf(),
            res is Ok <==> old(self).is_live(r.inner) && old(self).entry(r.inner).kind
                == RefKind::Local,
            res is Err ==> *final(self) == *old(self),
            res is Ok ==> {
                &&& final(self).objects@ == old(self).objects@
                &&& final(self).calls@ == old(self).calls@
                &&& final(self).refs@ == old(self).refs@.update(
                    r.inner - 1,
                    RefEntry { live: false, ..old(self).entry(r.inner) },
                )
            },
    {
        if r.inner == 0 || r.inner > self.refs.len() as u64 {
            return Err(AniError::new("delete_local_ref", STATUS_INCORRECT_REF));
        }
        let i = (r.inner - 1) as usize;
        let e = self.refs[i];
        if !e.live || e.kind != RefKind::Local {
            return Err(AniError::new("delete_local_ref", STATUS_INCORRECT_REF));
        }
        self.refs.set(i, RefEntry { object: e.object, kind: e.kind, live: false });
        Ok(())
    }

    /// Registers a weak reference to what `r` reaches; it keeps nothing alive.
    pub fn create_weak_ref(&mut self, r: &AniRef) -> (res: Result<AniRef, AniError>)
        requires
            old(self).wf(),
        ensures
            final(self).wf(),
            res is Ok <==> (old(self).is_live(r.inner) && old(self).has_room(1)),
            res is Err ==> *final(self) == *old(self),
            res is Ok ==> {
                &&& final(self).objects@ == old(self).objects@
                &&& final(self).calls@ == old(self).calls@
                &&& final(self).refs@ == old(self).refs@.push(
                    RefEntry { object: old(self).entry(r.inner).object, kind: RefKind::Weak, live: true },
                )
                &&& res->Ok_0.inner == final(self).refs@.len()
            },
    {
        if r.inner == 0 || r.inner > self.refs.len() as u64 {
            return Err(AniError::new("create_weak_ref", STATUS_INCORRECT_REF));
        }
        let e = self.refs[(r.inner - 1) as usize];
        if !e.live || e.kind == RefKind::Weak {
            return Err(AniError::new("create_weak_ref", STATUS_INCORRECT_REF));
        }
        if self.refs.len() >= MAX_REFS {
            return Err(AniError::new("create_weak_ref", STATUS_OUT_OF_REF));
        }
        self.refs.push(RefEntry { object: e.object, kind: RefKind::Weak, live: true });
        Ok(AniRef { inner: self.refs.len() as u64 })
    }

    /// Whether a strong reference in force reaches heap slot `object`.
    fn reachable(&self, object: usize) -> (r: bool)
        ensures
            r == self.is_reachable(object),
    {
        let mut i: usize = 0;
        while i < self.refs.len()
            invariant
                i <= self.refs@.len(),
                forall|j: int|
                    0 <= j < i ==> !(self.refs@[j].live && self.refs@[j].kind != RefKind::Weak
                        && #[trigger] self.refs@[j].object == object),
            decreases self.refs@.len() - i,
        {
            let e = self.refs[i];
            if e.live && e.kind != RefKind::Weak && e.object == object {
                return true;
            }
            i = i + 1;
        }
        false
    }

    /// Resolves a weak reference: a new local reference to its target while
    /// some strong reference still keeps the target, and `None` once none
    /// does, which is an expected outcome rather than an error.
    pub fn resolve_weak_ref(&mut self, w: &AniRef) -> (res: Result<Option<AniRef>, AniError>)
        requires
            old(self).wf(),
        ensures
            final(self).wf(),
            res is Err <==> !(1 <= w.inner <= old(self).refs@.len() && old(self).entry(w.inner).kind
                == RefKind::Weak && old(self).entry(w.inner).live) || (old(self).is_reachable(
                old(self).entry(w.inner).object,
            ) && !old(self).has_room(1)),
            res is Err ==> *final(self) == *old(self),
            res == Ok::<Option<AniRef>, AniError>(None) ==> *final(self) == *old(self)
                && !old(self).is_reachable(old(self).entry(w.inner).object),
            res is Ok && res->Ok_0 is Some ==> {
                &&& old(self).is_reachable(old(self).entry(w.inner).object)
                &&& final(self).keeps_refs(old(self))
                &&& final(self).objects@ == old(self).objects@
                &&& final(self).calls@ == old(self).calls@
                &&& final(self).value(res->Ok_0->Some_0.inner) == Some(
                    old(self).objects@[old(self).entry(w.inner).object as int],
                )
            },
    {
        if w.inner == 0 || w.inner > self.refs.len() as u64 {
            return Err(AniError::new("resolve_weak_ref", STATUS_INCORRECT_REF));
        }
        let e = self.refs[(w.inner - 1) as usize];
        if !e.live || e.kind != RefKind::Weak {
            return Err(AniError::new("resolve_weak_ref", STATUS_INCORRECT_REF));
        }
        if !self.reachable(e.object) {
            return Ok(None);
        }
        if self.refs.len() >= MAX_REFS {
            return Err(AniError::new("resolve_weak_ref", STATUS_OUT_OF_REF));
        }
        self.refs.push(RefEntry { object: e.object, kind: RefKind::Local, live: true });
        Ok(Some(AniRef { inner: self.refs.len() as u64 }))
    }

    /// Whether the handle reaches the undefined value.
    pub fn is_undefined(&self, r: &AniRef) -> (res: Result<bool, AniError>)
        requires
            self.wf(),
        ensures
            res is Ok <==> self.is_live(r.inner),
            res is Ok ==> res->Ok_0 == (self.value(r.inner) == Some(ManagedValue::Undefined)),
    {
        let v = self.value_of(r)?;
        Ok(matches!(v, ManagedValue::Undefined))
    }

    /// Whether the value the handle reaches is an instance of `class`.
    pub fn instance_of(&self, r: &AniRef, class: &String) -> (res: Result<bool, AniError>)
        requires
            self.wf(),
        ensures
            res is Ok <==> self.is_live(r.inner),
            res is Ok ==> res->Ok_0 == (class_of(self.value(r.inner)->Some_0) == class@),
    {
        let v = self.value_of(r)?;
        let name = class_name(v);
        Ok(name == *class)
    }

    /// Calls the function object that `f` reaches with `args`, recording the
    /// call; returns a handle to the call's (undefined) result.
    pub fn function_object_call(&mut self, f: &AniRef, args: Vec<AniRef>) -> (res: Result<
        AniRef,
        AniError,
    >)
        requires
            old(self).wf(),
        ensures
            final(self).wf(),
            res is Ok <==> (old(self).is_live(f.inner) && old(self).value(f.inner)
                is Some && old(self).value(f.inner)->Some_0 is Function && old(self).has_room(1)),
            res is Err ==> *final(self) == *old(self),
            final(self).keeps_refs(old(self)),
            res is Ok ==> {
                &&& final(self).calls@.len() == old(self).calls@.len() + 1
                &&& final(self).calls@.last().function == f.inner
                &&& final(self).calls@.last().args@ == args@
                &&& final(self).calls@.drop_last() == old(self).calls@
                &&& final(self).refs@.len() == old(self).refs@.len() + 1
                &&& forall|i: int|
                    0 <= i < old(self).objects@.len() ==> final(self).objects@[i] == old(
                        self,
                    ).objects@[i]
                &&& forall|i: int|
                    0 <= i < old(self).refs@.len() ==> final(self).refs@[i] == old(self).refs@[i]
                &&& final(self).objects@.len() == old(self).objects@.len() + 1
            },
    {
        let v = self.value_of(f);
        match v {
            Ok(ManagedValue::Function { .. }) => {},
            Ok(_) => {
                return Err(AniError::new("function_object_call", STATUS_INVALID_TYPE));
            },
            Err(e) => {
                return Err(e);
            },
        }
        if self.refs.len() >= MAX_REFS {
            return Err(AniError::new("function_object_call", STATUS_OUT_OF_REF));
        }
        self.calls.push(Invocation { function: f.inner, args });
        let index = self.objects.len();
        self.objects.push(ManagedValue::Undefined);
        self.refs.push(RefEntry { object: index, kind: RefKind::Local, live: true });
        Ok(AniRef { inner: self.refs.len() as u64 })
    }
}

} // verus!

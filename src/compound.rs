//! Managed values built from other managed values: arrays of strings,
//! records, objects of a class, enum items, and the choice among the classes
//! of a tagged union.
use vstd::prelude::*;

use crate::env::{
    class_name, class_of, AniEnv, AniRef, ManagedValue, STATUS_INVALID_TYPE, STATUS_NOT_FOUND,
    STATUS_OUT_OF_RANGE, STATUS_OUT_OF_REF,
};
use crate::error::AniError;
use crate::ser::{box_primitive, kind_of, unbox_primitive, Primitive, PrimitiveKind};

verus! {

/// A copy of a sequence of handles.
pub fn copy_refs(v: &Vec<AniRef>) -> (r: Vec<AniRef>)
    ensures
        r@ == v@,
{
    let mut out: Vec<AniRef> = Vec::new();
    let mut i: usize = 0;
    while i < v.len()
        invariant
            i <= v@.len(),
            out@ == v@.subrange(0, i as int),
        decreases v@.len() - i,
    {
        out.push(v[i]);
        i = i + 1;
    }
    assert(v@.subrange(0, v@.len() as int) == v@);
    out
}

/// A handle that was in force before an environment grew still reaches the
/// same value.
pub proof fn lemma_extends_value(new: &AniEnv, old: &AniEnv, h: u64)
    requires
        old.wf(),
        new.extends(old),
    ensures
        old.is_live(h) ==> new.value(h) == old.value(h),
{
    if old.is_live(h) {
        assert(new.refs@[h - 1] == old.refs@[h - 1]);
        assert(old.refs@[h - 1].object < old.objects@.len());
    }
}

/// Growth of an environment composes.
pub proof fn lemma_extends_trans(a: &AniEnv, b: &AniEnv, c: &AniEnv)
    requires
        b.extends(a),
        c.extends(b),
    ensures
        c.extends(a),
{
}

/// A string array reads back as exactly the strings it was written from:
/// it passes the check that decoding makes, and any sequence it holds is
/// that one.
pub proof fn lemma_string_array_round_trip(env: &AniEnv, h: u64, v: Seq<String>, w: Seq<String>)
    requires
        env.holds_strings(h, v),
        env.holds_strings(h, w),
    ensures
        env.is_string_array(h),
        w == v,
{
    let hs = env.value(h)->Some_0->RefArray_0@;
    assert forall|i: int| 0 <= i < hs.len() implies {
        let e = #[trigger] hs[i].inner;
        env.value(e) is Some && env.value(e)->Some_0 is Str
    } by {
        assert(env.value(hs[i].inner) == Some(ManagedValue::Str(v[i])));
    }
    assert forall|i: int| 0 <= i < v.len() implies w[i] == v[i] by {
        assert(env.value(hs[i].inner) == Some(ManagedValue::Str(v[i])));
        assert(env.value(hs[i].inner) == Some(ManagedValue::Str(w[i])));
    }
    assert(w =~= v);
}

/// A record of strings reads back as exactly the pairs it was written from,
/// in order.
pub proof fn lemma_string_record_round_trip(
    env: &AniEnv,
    h: u64,
    kv: Seq<(String, String)>,
    other: Seq<(String, String)>,
)
    requires
        env.holds_string_record(h, kv),
        env.holds_string_record(h, other),
    ensures
        env.is_string_record(h),
        other == kv,
{
    let es = env.value(h)->Some_0->Record_0@;
    assert forall|i: int| 0 <= i < es.len() implies {
        let e = #[trigger] es[i];
        &&& env.value(e.0.inner) is Some
        &&& env.value(e.0.inner)->Some_0 is Str
        &&& env.value(e.1.inner) is Some
        &&& env.value(e.1.inner)->Some_0 is Str
    } by {
        assert(env.value(es[i].0.inner) == Some(ManagedValue::Str(kv[i].0)));
    }
    assert forall|i: int| 0 <= i < kv.len() implies other[i] == kv[i] by {
        let e = es[i];
        assert(env.value(e.0.inner) == Some(ManagedValue::Str(kv[i].0)));
        assert(env.value(e.1.inner) == Some(ManagedValue::Str(kv[i].1)));
        assert(env.value(e.0.inner) == Some(ManagedValue::Str(other[i].0)));
        assert(env.value(e.1.inner) == Some(ManagedValue::Str(other[i].1)));
    }
    assert(other =~= kv);
}

/// A string, an array buffer, an object's field list or an enum item reads
/// back as what was written.
pub proof fn lemma_single_value_round_trip(s: String, b: Vec<u8>, class: String, fields: Vec<AniRef>, enum_name: String, index: usize)
    ensures
        ManagedValue::Str(s) is Str && ManagedValue::Str(s)->Str_0 == s,
        ManagedValue::ArrayBuffer(b)->ArrayBuffer_0@ == b@,
        (ManagedValue::Object { class, fields })->fields@ == fields@,
        class_of(ManagedValue::Object { class, fields }) == class@,
        (ManagedValue::EnumItem { enum_name, index })->index == index,
        (ManagedValue::EnumItem { enum_name, index })->enum_name@ == enum_name@,
{
}

impl AniEnv {
    /// Whether `h` reaches an array whose elements reach the strings `ss`, in
    /// order.
    pub open spec fn holds_strings(&self, h: u64, ss: Seq<String>) -> bool {
        &&& self.value(h) is Some
        &&& self.value(h)->Some_0 is RefArray
        &&& self.value(h)->Some_0->RefArray_0@.len() == ss.len()
        &&& forall|i: int|
            0 <= i < ss.len() ==> self.value(
                #[trigger] self.value(h)->Some_0->RefArray_0@[i].inner,
            ) == Some(ManagedValue::Str(ss[i]))
    }

    /// Whether `h` reaches an array of references that each reach a string.
    pub open spec fn is_string_array(&self, h: u64) -> bool {
        &&& self.value(h) is Some
        &&& self.value(h)->Some_0 is RefArray
        &&& forall|i: int|
            0 <= i < self.value(h)->Some_0->RefArray_0@.len() ==> {
                let e = #[trigger] self.value(h)->Some_0->RefArray_0@[i].inner;
                self.value(e) is Some && self.value(e)->Some_0 is Str
            }
    }

    /// Whether `h` reaches a record whose entries reach the pairs of strings
    /// `kv`, in order.
    pub open spec fn holds_string_record(&self, h: u64, kv: Seq<(String, String)>) -> bool {
        &&& self.value(h) is Some
        &&& self.value(h)->Some_0 is Record
        &&& self.value(h)->Some_0->Record_0@.len() == kv.len()
        &&& forall|i: int|
            0 <= i < kv.len() ==> {
                let e = #[trigger] self.value(h)->Some_0->Record_0@[i];
                self.value(e.0.inner) == Some(ManagedValue::Str(kv[i].0)) && self.value(e.1.inner)
                    == Some(ManagedValue::Str(kv[i].1))
            }
    }

    /// Whether `h` reaches a record whose keys and values all reach strings.
    pub open spec fn is_string_record(&self, h: u64) -> bool {
        &&& self.value(h) is Some
        &&& self.value(h)->Some_0 is Record
        &&& forall|i: int|
            0 <= i < self.value(h)->Some_0->Record_0@.len() ==> {
                let e = #[trigger] self.value(h)->Some_0->Record_0@[i];
                &&& self.value(e.0.inner) is Some
                &&& self.value(e.0.inner)->Some_0 is Str
                &&& self.value(e.1.inner) is Some
                &&& self.value(e.1.inner)->Some_0 is Str
            }
    }

    /// Writes a sequence of strings: each string, then an array of references
    /// to them.
    pub fn serialize_string_array(&mut self, v: &Vec<String>) -> (r: Result<AniRef, AniError>)
        requires
            old(self).wf(),
        ensures
            final(self).wf(),
            r is Ok <==> old(self).has_room(v@.len() + 1 as int),
            r is Ok ==> final(self).extends(old(self)) && final(self).holds_strings(
                r->Ok_0.inner,
                v@,
            ),
            r is Err ==> final(self).extends(old(self)),
    {
        let ghost start = *self;
        if self.refs.len() >= crate::env::MAX_REFS || v.len() > crate::env::MAX_REFS - self.refs.len() - 1 {
            return Err(AniError::new("serialize_string_array", crate::env::STATUS_OUT_OF_REF));
        }
        let mut hs: Vec<AniRef> = Vec::new();
        let mut i: usize = 0;
        while i < v.len()
            invariant
                self.wf(),
                start.wf(),
                self.extends(&start),
                i <= v@.len(),
                self.refs@.len() == start.refs@.len() + i,
                start.refs@.len() + v@.len() + 1 <= crate::env::MAX_REFS,
                hs@.len() == i,
                forall|j: int|
                    0 <= j < i ==> self.value(#[trigger] hs@[j].inner) == Some(
                        ManagedValue::Str(v@[j]),
                    ),
            decreases v@.len() - i,
        {
            let ghost before = *self;
            let h = self.serialize_string(v[i].clone());
            let h = match h {
                Ok(h) => h,
                Err(e) => {
                    return Err(e);
                },
            };
            proof {
                assert forall|j: int| 0 <= j < i implies self.value(#[trigger] hs@[j].inner)
                    == Some(ManagedValue::Str(v@[j])) by {
                    lemma_extends_value(self, &before, hs@[j].inner);
                }
                lemma_extends_trans(&start, &before, self);
            }
            hs.push(h);
            i = i + 1;
        }
        let ghost before = *self;
        let ghost handles = hs@;
        let r = self.new_local(ManagedValue::RefArray(hs));
        proof {
            if r is Ok {
                lemma_extends_trans(&start, &before, self);
                assert forall|j: int| 0 <= j < v@.len() implies self.value(
                    #[trigger] handles[j].inner,
                ) == Some(ManagedValue::Str(v@[j])) by {
                    lemma_extends_value(self, &before, handles[j].inner);
                }
            }
        }
        r
    }

    /// Reads an array of strings; fails unless every element reaches a string.
    pub fn deserialize_string_array(&self, r: &AniRef) -> (res: Result<Vec<String>, AniError>)
        requires
            self.wf(),
        ensures
            res is Ok <==> self.is_string_array(r.inner),
            res is Ok ==> self.holds_strings(r.inner, res->Ok_0@),
    {
        let v = self.value_of(r)?;
        let hs = match v {
            ManagedValue::RefArray(hs) => hs,
            _ => {
                return Err(AniError::new("deserialize_string_array", STATUS_INVALID_TYPE));
            },
        };
        let mut out: Vec<String> = Vec::new();
        let mut i: usize = 0;
        while i < hs.len()
            invariant
                self.wf(),
                self.value(r.inner) == Some(ManagedValue::RefArray(*hs)),
                i <= hs@.len(),
                out@.len() == i,
                forall|j: int|
                    0 <= j < i ==> self.value(#[trigger] hs@[j].inner) == Some(
                        ManagedValue::Str(out@[j]),
                    ),
            decreases hs@.len() - i,
        {
            let s = self.deserialize_string(&hs[i]);
            match s {
                Ok(s) => out.push(s),
                Err(e) => {
                    assert(!(self.value(hs@[i as int].inner) is Some && self.value(
                        hs@[i as int].inner,
                    )->Some_0 is Str));
                    return Err(e);
                },
            }
            i = i + 1;
        }
        Ok(out)
    }

    /// Writes a record of strings: each key and value, then the record of
    /// their references, in the order given.
    pub fn serialize_string_record(&mut self, kv: &Vec<(String, String)>) -> (r: Result<
        AniRef,
        AniError,
    >)
        requires
            old(self).wf(),
        ensures
            final(self).wf(),
            r is Ok <==> old(self).has_room(2 * kv@.len() + 1 as int),
            r is Ok ==> final(self).extends(old(self)) && final(self).holds_string_record(
                r->Ok_0.inner,
                kv@,
            ),
            r is Err ==> final(self).extends(old(self)),
    {
        let ghost start = *self;
        if self.refs.len() >= crate::env::MAX_REFS || kv.len() > (crate::env::MAX_REFS - self.refs.len() - 1) / 2 {
            return Err(AniError::new("serialize_string_record", crate::env::STATUS_OUT_OF_REF));
        }
        let mut es: Vec<(AniRef, AniRef)> = Vec::new();
        let mut i: usize = 0;
        while i < kv.len()
            invariant
                self.wf(),
                start.wf(),
                self.extends(&start),
                i <= kv@.len(),
                self.refs@.len() == start.refs@.len() + 2 * i,
                start.refs@.len() + 2 * kv@.len() + 1 <= crate::env::MAX_REFS,
                es@.len() == i,
                forall|j: int|
                    0 <= j < i ==> {
                        let e = #[trigger] es@[j];
                        self.value(e.0.inner) == Some(ManagedValue::Str(kv@[j].0)) && self.value(
                            e.1.inner,
                        ) == Some(ManagedValue::Str(kv@[j].1))
                    },
            decreases kv@.len() - i,
        {
            let ghost before = *self;
            let k = match self.serialize_string(kv[i].0.clone()) {
                Ok(h) => h,
                Err(e) => {
                    return Err(e);
                },
            };
            let ghost middle = *self;
            let v = match self.serialize_string(kv[i].1.clone()) {
                Ok(h) => h,
                Err(e) => {
                    proof {
                        lemma_extends_trans(&before, &middle, self);
                        lemma_extends_trans(&start, &before, self);
                    }
                    return Err(e);
                },
            };
            proof {
                lemma_extends_trans(&before, &middle, self);
                lemma_extends_trans(&start, &before, self);
                lemma_extends_value(self, &middle, k.inner);
                assert forall|j: int| 0 <= j < i implies {
                    let e = #[trigger] es@[j];
                    self.value(e.0.inner) == Some(ManagedValue::Str(kv@[j].0)) && self.value(
                        e.1.inner,
                    ) == Some(ManagedValue::Str(kv@[j].1))
                } by {
                    lemma_extends_value(self, &before, es@[j].0.inner);
                    lemma_extends_value(self, &before, es@[j].1.inner);
                }
            }
            es.push((k, v));
            i = i + 1;
        }
        let ghost before = *self;
        let ghost entries = es@;
        let r = self.new_local(ManagedValue::Record(es));
        proof {
            if r is Ok {
                lemma_extends_trans(&start, &before, self);
                assert forall|j: int| 0 <= j < kv@.len() implies {
                    let e = #[trigger] entries[j];
                    self.value(e.0.inner) == Some(ManagedValue::Str(kv@[j].0)) && self.value(
                        e.1.inner,
                    ) == Some(ManagedValue::Str(kv@[j].1))
                } by {
                    lemma_extends_value(self, &before, entries[j].0.inner);
                    lemma_extends_value(self, &before, entries[j].1.inner);
                }
            }
        }
        r
    }

    /// Reads a record of strings; fails unless every key and value reaches a
    /// string.
    pub fn deserialize_string_record(&self, r: &AniRef) -> (res: Result<
        Vec<(String, String)>,
        AniError,
    >)
        requires
            self.wf(),
        ensures
            res is Ok <==> self.is_string_record(r.inner),
            res is Ok ==> self.holds_string_record(r.inner, res->Ok_0@),
    {
        let v = self.value_of(r)?;
        let es = match v {
            ManagedValue::Record(es) => es,
            _ => {
                return Err(AniError::new("deserialize_string_record", STATUS_INVALID_TYPE));
            },
        };
        let mut out: Vec<(String, String)> = Vec::new();
        let mut i: usize = 0;
        while i < es.len()
            invariant
                self.wf(),
                self.value(r.inner) == Some(ManagedValue::Record(*es)),
                i <= es@.len(),
                out@.len() == i,
                forall|j: int|
                    0 <= j < i ==> {
                        let e = #[trigger] es@[j];
                        self.value(e.0.inner) == Some(ManagedValue::Str(out@[j].0)) && self.value(
                            e.1.inner,
                        ) == Some(ManagedValue::Str(out@[j].1))
                    },
            decreases es@.len() - i,
        {
            let (kh, vh) = es[i];
            let k = self.deserialize_string(&kh)?;
            let v = self.deserialize_string(&vh)?;
            out.push((k, v));
            i = i + 1;
        }
        Ok(out)
    }

    /// Builds an object of `class` whose fields are the given references, in
    /// declaration order.
    pub fn new_object(&mut self, class: String, fields: Vec<AniRef>) -> (r: Result<
        AniRef,
        AniError,
    >)
        requires
            old(self).wf(),
        ensures
            final(self).wf(),
            r is Ok <==> old(self).has_room(1),
            r is Err ==> *final(self) == *old(self) && r->Err_0.status == STATUS_OUT_OF_REF,
            r is Ok ==> final(self).refs@.len() == old(self).refs@.len() + 1,
            r is Ok ==> final(self).extends(old(self)) && final(self).value(r->Ok_0.inner) == Some(
                ManagedValue::Object { class, fields },
            ),
    {
        self.new_local(ManagedValue::Object { class, fields })
    }

    /// The field at `index` of an object; an index past the last field is an
    /// error.
    pub fn get_field(&self, r: &AniRef, index: usize) -> (res: Result<AniRef, AniError>)
        requires
            self.wf(),
        ensures
            res is Ok <==> self.is_live(r.inner) && self.value(r.inner)->Some_0 is Object
                && index < self.value(r.inner)->Some_0->fields@.len(),
            res is Ok ==> res->Ok_0 == self.value(r.inner)->Some_0->fields@[index as int],
    {
        let v = self.value_of(r)?;
        match v {
            ManagedValue::Object { fields, .. } => {
                if index < fields.len() {
                    Ok(fields[index])
                } else {
                    Err(AniError::new("get_field", STATUS_OUT_OF_RANGE))
                }
            },
            _ => Err(AniError::new("get_field", STATUS_INVALID_TYPE)),
        }
    }

    /// The item at `index` of the enum `enum_name`.
    pub fn new_enum_item_by_index(&mut self, enum_name: String, index: usize) -> (r: Result<
        AniRef,
        AniError,
    >)
        requires
            old(self).wf(),
        ensures
            final(self).wf(),
            r is Ok <==> old(self).has_room(1),
            r is Err ==> *final(self) == *old(self) && r->Err_0.status == STATUS_OUT_OF_REF,
            r is Ok ==> final(self).refs@.len() == old(self).refs@.len() + 1,
            r is Ok ==> final(self).extends(old(self)) && final(self).value(r->Ok_0.inner) == Some(
                ManagedValue::EnumItem { enum_name, index },
            ),
    {
        self.new_local(ManagedValue::EnumItem { enum_name, index })
    }

    /// The index of an enum item; fails unless the handle reaches an item of
    /// the enum `enum_name`.
    pub fn get_enum_index(&self, r: &AniRef, enum_name: &String) -> (res: Result<usize, AniError>)
        requires
            self.wf(),
        ensures
            res is Ok <==> self.is_live(r.inner) && self.value(r.inner)->Some_0 is EnumItem
                && self.value(r.inner)->Some_0->enum_name@ == enum_name@,
            res is Ok ==> res->Ok_0 == self.value(r.inner)->Some_0->index,
    {
        let v = self.value_of(r)?;
        match v {
            ManagedValue::EnumItem { enum_name: name, index } => {
                if *name == *enum_name {
                    Ok(*index)
                } else {
                    Err(AniError::new("get_enum_index", STATUS_INVALID_TYPE))
                }
            },
            _ => Err(AniError::new("get_enum_index", STATUS_INVALID_TYPE)),
        }
    }

    /// Chooses the variant of a tagged union that a handle decodes into: the
    /// first of `candidates`, in their fixed order, of which the value is an
    /// instance. Fails when none matches.
    pub fn select_variant(&self, r: &AniRef, candidates: &Vec<String>) -> (res: Result<
        usize,
        AniError,
    >)
        requires
            self.wf(),
        ensures
            res is Ok ==> {
                &&& self.is_live(r.inner)
                &&& res->Ok_0 < candidates@.len()
                &&& class_of(self.value(r.inner)->Some_0) == candidates@[res->Ok_0 as int]@
                &&& forall|j: int|
                    0 <= j < res->Ok_0 ==> class_of(self.value(r.inner)->Some_0)
                        != #[trigger] candidates@[j]@
            },
            res is Err ==> !self.is_live(r.inner) || forall|j: int|
                0 <= j < candidates@.len() ==> class_of(self.value(r.inner)->Some_0)
                    != #[trigger] candidates@[j]@,
            res is Err && self.is_live(r.inner) ==> res->Err_0.status == STATUS_NOT_FOUND,
    {
        let v = self.value_of(r)?;
        let name = class_name(v);
        let mut i: usize = 0;
        while i < candidates.len()
            invariant
                self.is_live(r.inner),
                name@ == class_of(self.value(r.inner)->Some_0),
                i <= candidates@.len(),
                forall|j: int| 0 <= j < i ==> name@ != #[trigger] candidates@[j]@,
            decreases candidates@.len() - i,
        {
            if name == candidates[i] {
                return Ok(i);
            }
            i = i + 1;
        }
        Err(AniError::new("select_variant", STATUS_NOT_FOUND))
    }
}

impl AniEnv {
    /// Whether `h` reaches an object of `class` whose fields reach the
    /// primitives `fields`, in declaration order.
    pub open spec fn holds_record(&self, h: u64, class: Seq<char>, fields: Seq<Primitive>) -> bool {
        &&& self.value(h) is Some
        &&& self.value(h)->Some_0 is Object
        &&& self.value(h)->Some_0->class@ == class
        &&& self.value(h)->Some_0->fields@.len() == fields.len()
        &&& forall|i: int|
            0 <= i < fields.len() ==> self.value(
                #[trigger] self.value(h)->Some_0->fields@[i].inner,
            ) == Some(box_primitive(fields[i]))
    }

    /// Whether `h` reaches an object of `class` whose fields are boxed
    /// primitives of the widths `kinds`.
    pub open spec fn is_record_of(&self, h: u64, class: Seq<char>, kinds: Seq<PrimitiveKind>) -> bool {
        &&& self.value(h) is Some
        &&& self.value(h)->Some_0 is Object
        &&& self.value(h)->Some_0->class@ == class
        &&& self.value(h)->Some_0->fields@.len() == kinds.len()
        &&& forall|i: int|
            0 <= i < kinds.len() ==> {
                let f = #[trigger] self.value(h)->Some_0->fields@[i].inner;
                self.value(f) is Some && unbox_primitive(self.value(f)->Some_0, kinds[i]) is Some
            }
    }

    /// Writes a record of primitive fields: each field, then an object of
    /// `class` holding them in declaration order.
    pub fn serialize_struct(&mut self, class: String, fields: &Vec<Primitive>) -> (r: Result<
        AniRef,
        AniError,
    >)
        requires
            old(self).wf(),
        ensures
            final(self).wf(),
            final(self).extends(old(self)),
            r is Ok <==> old(self).has_room(fields@.len() + 1 as int),
            r is Ok ==> final(self).holds_record(r->Ok_0.inner, class@, fields@),
    {
        let ghost start = *self;
        if self.refs.len() >= crate::env::MAX_REFS || fields.len() > crate::env::MAX_REFS
            - self.refs.len() - 1 {
            return Err(AniError::new("serialize_struct", crate::env::STATUS_OUT_OF_REF));
        }
        let mut hs: Vec<AniRef> = Vec::new();
        let mut i: usize = 0;
        while i < fields.len()
            invariant
                self.wf(),
                start.wf(),
                start == *old(self),
                self.extends(&start),
                i <= fields@.len(),
                self.refs@.len() == start.refs@.len() + i,
                start.refs@.len() + fields@.len() + 1 <= crate::env::MAX_REFS,
                hs@.len() == i,
                forall|j: int|
                    0 <= j < i ==> self.value(#[trigger] hs@[j].inner) == Some(
                        box_primitive(fields@[j]),
                    ),
            decreases fields@.len() - i,
        {
            let ghost before = *self;
            let h = match self.serialize_primitive(fields[i]) {
                Ok(h) => h,
                Err(e) => {
                    return Err(e);
                },
            };
            proof {
                assert forall|j: int| 0 <= j < i implies self.value(#[trigger] hs@[j].inner)
                    == Some(box_primitive(fields@[j])) by {
                    lemma_extends_value(self, &before, hs@[j].inner);
                }
                lemma_extends_trans(&start, &before, self);
            }
            hs.push(h);
            i = i + 1;
        }
        let ghost before = *self;
        let ghost handles = hs@;
        let r = self.new_object(class, hs);
        proof {
            if r is Ok {
                lemma_extends_trans(&start, &before, self);
                assert forall|j: int| 0 <= j < fields@.len() implies self.value(
                    #[trigger] handles[j].inner,
                ) == Some(box_primitive(fields@[j])) by {
                    lemma_extends_value(self, &before, handles[j].inner);
                }
            }
        }
        r
    }

    /// Reads a record of primitive fields of the widths `kinds`; fails unless
    /// the handle reaches an object of `class` with exactly such fields.
    pub fn deserialize_struct(&self, r: &AniRef, class: &String, kinds: &Vec<PrimitiveKind>) -> (res:
        Result<Vec<Primitive>, AniError>)
        requires
            self.wf(),
        ensures
            res is Ok <==> self.is_record_of(r.inner, class@, kinds@),
            res is Ok ==> self.holds_record(r.inner, class@, res->Ok_0@),
            res is Ok ==> forall|i: int|
                0 <= i < kinds@.len() ==> kind_of(#[trigger] res->Ok_0@[i]) == kinds@[i],
    {
        let v = self.value_of(r)?;
        let fs = match v {
            ManagedValue::Object { class: c, fields } => {
                if *c != *class || fields.len() != kinds.len() {
                    return Err(AniError::new("deserialize_struct", STATUS_INVALID_TYPE));
                }
                fields
            },
            _ => {
                return Err(AniError::new("deserialize_struct", STATUS_INVALID_TYPE));
            },
        };
        let mut out: Vec<Primitive> = Vec::new();
        let mut i: usize = 0;
        while i < fs.len()
            invariant
                self.wf(),
                self.value(r.inner) is Some,
                self.value(r.inner)->Some_0 is Object,
                self.value(r.inner)->Some_0->fields@ == fs@,
                self.value(r.inner)->Some_0->class@ == class@,
                fs@.len() == kinds@.len(),
                i <= fs@.len(),
                out@.len() == i,
                forall|j: int|
                    0 <= j < i ==> self.value(#[trigger] fs@[j].inner) == Some(
                        box_primitive(out@[j]),
                    ) && kind_of(out@[j]) == kinds@[j] && unbox_primitive(
                        self.value(fs@[j].inner)->Some_0,
                        kinds@[j],
                    ) is Some,
            decreases fs@.len() - i,
        {
            let p = self.deserialize_primitive(&fs[i], kinds[i]);
            match p {
                Ok(p) => {
                    out.push(p);
                },
                Err(e) => {
                    return Err(e);
                },
            }
            i = i + 1;
        }
        assert forall|k: int| 0 <= k < kinds@.len() implies kind_of(#[trigger] out@[k]) == kinds@[k] by {
            assert(self.value(fs@[k].inner) == Some(box_primitive(out@[k])));
        }
        Ok(out)
    }
}

/// A record of primitives reads back as exactly the fields it was written
/// from, when read at their own widths.
pub proof fn lemma_struct_round_trip(env: &AniEnv, h: u64, class: Seq<char>, a: Seq<Primitive>, b: Seq<Primitive>)
    requires
        env.holds_record(h, class, a),
        env.holds_record(h, class, b),
    ensures
        env.is_record_of(h, class, a.map_values(|p: Primitive| kind_of(p))),
        a == b,
{
    let fs = env.value(h)->Some_0->fields@;
    assert forall|i: int| 0 <= i < a.len() implies a[i] == b[i] by {
        assert(env.value(fs[i].inner) == Some(box_primitive(a[i])));
        assert(env.value(fs[i].inner) == Some(box_primitive(b[i])));
    }
    assert(a =~= b);
    let ks = a.map_values(|p: Primitive| kind_of(p));
    assert forall|i: int| 0 <= i < ks.len() implies {
        let f = #[trigger] env.value(h)->Some_0->fields@[i].inner;
        env.value(f) is Some && unbox_primitive(env.value(f)->Some_0, ks[i]) is Some
    } by {
        assert(env.value(fs[i].inner) == Some(box_primitive(a[i])));
    }
}

} // verus!

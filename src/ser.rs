//! The serialization engine: each supported kind of Rust value is written to
//! the managed heap as one managed value, and read back from a handle.
use vstd::prelude::*;

use crate::env::{
    AniEnv, AniRef, ManagedValue, STATUS_INVALID_TYPE, STATUS_OUT_OF_RANGE,
};
use crate::error::AniError;

verus! {

/// A primitive Rust value.
#[derive(Clone, Copy, PartialEq, Eq, Structural, Debug)]
pub enum Primitive {
    Bool(bool),
    Byte(i8),
    Short(i16),
    Int(i32),
    Long(i64),
}

/// The width of a primitive value: the type tag that steers decoding.
#[derive(Clone, Copy, PartialEq, Eq, Structural, Debug)]
pub enum PrimitiveKind {
    Bool,
    Byte,
    Short,
    Int,
    Long,
}

/// A sequence of primitives of one width.
pub enum PrimitiveArray {
    Bool(Vec<bool>),
    Byte(Vec<i8>),
    Short(Vec<i16>),
    Int(Vec<i32>),
    Long(Vec<i64>),
}

/// The width of a primitive.
pub open spec fn kind_of(p: Primitive) -> PrimitiveKind {
    match p {
        Primitive::Bool(_) => PrimitiveKind::Bool,
        Primitive::Byte(_) => PrimitiveKind::Byte,
        Primitive::Short(_) => PrimitiveKind::Short,
        Primitive::Int(_) => PrimitiveKind::Int,
        Primitive::Long(_) => PrimitiveKind::Long,
    }
}

/// The boxed managed object that holds a primitive.
pub open spec fn box_primitive(p: Primitive) -> ManagedValue {
    match p {
        Primitive::Bool(b) => ManagedValue::Boolean(b),
        Primitive::Byte(b) => ManagedValue::Byte(b),
        Primitive::Short(s) => ManagedValue::Short(s),
        Primitive::Int(i) => ManagedValue::Int(i),
        Primitive::Long(l) => ManagedValue::Long(l),
    }
}

/// The primitive of width `k` that a managed value holds, if it is a boxed
/// primitive of that width.
pub open spec fn unbox_primitive(v: ManagedValue, k: PrimitiveKind) -> Option<Primitive> {
    match (v, k) {
        (ManagedValue::Boolean(b), PrimitiveKind::Bool) => Some(Primitive::Bool(b)),
        (ManagedValue::Byte(b), PrimitiveKind::Byte) => Some(Primitive::Byte(b)),
        (ManagedValue::Short(s), PrimitiveKind::Short) => Some(Primitive::Short(s)),
        (ManagedValue::Int(i), PrimitiveKind::Int) => Some(Primitive::Int(i)),
        (ManagedValue::Long(l), PrimitiveKind::Long) => Some(Primitive::Long(l)),
        _ => None,
    }
}

/// Whether a managed value stands for an absent optional value.
pub open spec fn is_absent(v: ManagedValue) -> bool {
    v is Undefined || v is Null
}

/// The managed value of an optional primitive: `None` is undefined.
pub open spec fn encode_option(o: Option<Primitive>) -> ManagedValue {
    match o {
        None => ManagedValue::Undefined,
        Some(p) => box_primitive(p),
    }
}

/// The optional primitive of width `k` that a managed value stands for.
pub open spec fn decode_option(v: ManagedValue, k: PrimitiveKind) -> Option<Option<Primitive>> {
    if is_absent(v) {
        Some(None)
    } else {
        match unbox_primitive(v, k) {
            Some(p) => Some(Some(p)),
            None => None,
        }
    }
}

/// The width of the elements of a primitive sequence.
pub open spec fn array_kind(a: PrimitiveArray) -> PrimitiveKind {
    match a {
        PrimitiveArray::Bool(_) => PrimitiveKind::Bool,
        PrimitiveArray::Byte(_) => PrimitiveKind::Byte,
        PrimitiveArray::Short(_) => PrimitiveKind::Short,
        PrimitiveArray::Int(_) => PrimitiveKind::Int,
        PrimitiveArray::Long(_) => PrimitiveKind::Long,
    }
}

/// The managed array of a primitive sequence, filled through the bulk path.
pub open spec fn encode_array(a: PrimitiveArray) -> ManagedValue {
    match a {
        PrimitiveArray::Bool(v) => ManagedValue::BoolArray(v),
        PrimitiveArray::Byte(v) => ManagedValue::ByteArray(v),
        PrimitiveArray::Short(v) => ManagedValue::ShortArray(v),
        PrimitiveArray::Int(v) => ManagedValue::IntArray(v),
        PrimitiveArray::Long(v) => ManagedValue::LongArray(v),
    }
}

/// Whether a managed value is an array of width `k` whose elements are those
/// of `a`.
pub open spec fn array_matches(v: ManagedValue, a: PrimitiveArray) -> bool {
    match (v, a) {
        (ManagedValue::BoolArray(x), PrimitiveArray::Bool(y)) => x@ == y@,
        (ManagedValue::ByteArray(x), PrimitiveArray::Byte(y)) => x@ == y@,
        (ManagedValue::ShortArray(x), PrimitiveArray::Short(y)) => x@ == y@,
        (ManagedValue::IntArray(x), PrimitiveArray::Int(y)) => x@ == y@,
        (ManagedValue::LongArray(x), PrimitiveArray::Long(y)) => x@ == y@,
        _ => false,
    }
}

/// Whether a managed value is an array whose elements have width `k`.
pub open spec fn is_array_of(v: ManagedValue, k: PrimitiveKind) -> bool {
    match (v, k) {
        (ManagedValue::BoolArray(_), PrimitiveKind::Bool) => true,
        (ManagedValue::ByteArray(_), PrimitiveKind::Byte) => true,
        (ManagedValue::ShortArray(_), PrimitiveKind::Short) => true,
        (ManagedValue::IntArray(_), PrimitiveKind::Int) => true,
        (ManagedValue::LongArray(_), PrimitiveKind::Long) => true,
        _ => false,
    }
}

/// The number of elements of a managed primitive array.
pub open spec fn array_len(v: ManagedValue) -> int {
    match v {
        ManagedValue::BoolArray(x) => x@.len() as int,
        ManagedValue::ByteArray(x) => x@.len() as int,
        ManagedValue::ShortArray(x) => x@.len() as int,
        ManagedValue::IntArray(x) => x@.len() as int,
        ManagedValue::LongArray(x) => x@.len() as int,
        _ => 0,
    }
}

/// The element at `i` of a managed primitive array.
pub open spec fn array_element(v: ManagedValue, i: int) -> Primitive {
    match v {
        ManagedValue::BoolArray(x) => Primitive::Bool(x@[i]),
        ManagedValue::ByteArray(x) => Primitive::Byte(x@[i]),
        ManagedValue::ShortArray(x) => Primitive::Short(x@[i]),
        ManagedValue::IntArray(x) => Primitive::Int(x@[i]),
        _ => Primitive::Long(v->LongArray_0@[i]),
    }
}

/// The handles of a managed array of references.
pub open spec fn ref_elements(v: ManagedValue) -> Option<Seq<AniRef>> {
    match v {
        ManagedValue::RefArray(hs) => Some(hs@),
        _ => None,
    }
}

/// A primitive written as a boxed object reads back as itself when it is
/// read at its own width.
pub proof fn lemma_primitive_round_trip(p: Primitive)
    ensures
        unbox_primitive(box_primitive(p), kind_of(p)) == Some(p),
{
}

/// An optional primitive of width `k` reads back as itself at width `k`;
/// in particular `None` and `Some(false)` are never confused.
pub proof fn lemma_option_round_trip(o: Option<Primitive>, k: PrimitiveKind)
    requires
        o is Some ==> kind_of(o->Some_0) == k,
    ensures
        decode_option(encode_option(o), k) == Some(o),
{
}

/// An absent boolean and a present `false` are written as different managed
/// values, and each reads back as what was written.
pub proof fn lemma_option_bool_distinct()
    ensures
        encode_option(None) != encode_option(Some(Primitive::Bool(false))),
        decode_option(encode_option(None), PrimitiveKind::Bool) == Some(None::<Primitive>),
        decode_option(encode_option(Some(Primitive::Bool(false))), PrimitiveKind::Bool) == Some(
            Some(Primitive::Bool(false)),
        ),
{
}

/// A primitive sequence of any width, the empty one included, is written as an
/// array of its own width that holds exactly its elements.
pub proof fn lemma_array_round_trip(a: PrimitiveArray)
    ensures
        is_array_of(encode_array(a), array_kind(a)),
        array_matches(encode_array(a), a),
{
}

/// A sequence of references reads back as the same handles.
pub proof fn lemma_ref_array_round_trip(hs: Vec<AniRef>)
    ensures
        ref_elements(ManagedValue::RefArray(hs)) == Some(hs@),
{
}

/// Two primitive sequences that match one managed array have equal elements
/// and width: what is read back is what was written.
pub proof fn lemma_array_matches_unique(v: ManagedValue, a: PrimitiveArray, b: PrimitiveArray)
    requires
        array_matches(v, a),
        array_matches(v, b),
    ensures
        array_kind(a) == array_kind(b),
        match (a, b) {
            (PrimitiveArray::Bool(x), PrimitiveArray::Bool(y)) => x@ == y@,
            (PrimitiveArray::Byte(x), PrimitiveArray::Byte(y)) => x@ == y@,
            (PrimitiveArray::Short(x), PrimitiveArray::Short(y)) => x@ == y@,
            (PrimitiveArray::Int(x), PrimitiveArray::Int(y)) => x@ == y@,
            (PrimitiveArray::Long(x), PrimitiveArray::Long(y)) => x@ == y@,
            _ => false,
        },
{
}

/// A copy of a sequence of plain values.
fn copy_vec<T: Copy>(v: &Vec<T>) -> (r: Vec<T>)
    ensures
        r@ == v@,
{
    let mut out: Vec<T> = Vec::new();
    let mut i: usize = 0;
    while i < v.len()
        invariant
            i <= v@.len(),
            out@ == v@.subrange(0, i as int),
        decreases v@.len() - i,
    {
        out.push(v[i]);
        i = i + 1;
        assert(out@ == v@.subrange(0, i as int));
    }
    assert(v@.subrange(0, v@.len() as int) == v@);
    out
}

impl AniEnv {
    /// Writes a primitive as a boxed managed object.
    pub fn serialize_primitive(&mut self, p: Primitive) -> (r: Result<AniRef, AniError>)
        requires
            old(self).wf(),
        ensures
            final(self).wf(),
            r is Ok <==> old(self).has_room(1),
            r is Err ==> *final(self) == *old(self),
            r is Ok ==> final(self).refs@.len() == old(self).refs@.len() + 1,
            r is Ok ==> final(self).extends(old(self)) && final(self).value(r->Ok_0.inner) == Some(
                box_primitive(p),
            ),
    {
        let v = match p {
            Primitive::Bool(b) => ManagedValue::Boolean(b),
            Primitive::Byte(b) => ManagedValue::Byte(b),
            Primitive::Short(s) => ManagedValue::Short(s),
            Primitive::Int(i) => ManagedValue::Int(i),
            Primitive::Long(l) => ManagedValue::Long(l),
        };
        self.new_local(v)
    }

    /// Reads a primitive of width `k`; fails unless the handle reaches a boxed
    /// primitive of that width.
    pub fn deserialize_primitive(&self, r: &AniRef, k: PrimitiveKind) -> (res: Result<
        Primitive,
        AniError,
    >)
        requires
            self.wf(),
        ensures
            res is Ok <==> self.is_live(r.inner) && unbox_primitive(self.value(r.inner)->Some_0, k)
                is Some,
            res is Ok ==> Some(res->Ok_0) == unbox_primitive(self.value(r.inner)->Some_0, k),
    {
        let v = self.value_of(r)?;
        match (v, k) {
            (ManagedValue::Boolean(b), PrimitiveKind::Bool) => Ok(Primitive::Bool(*b)),
            (ManagedValue::Byte(b), PrimitiveKind::Byte) => Ok(Primitive::Byte(*b)),
            (ManagedValue::Short(s), PrimitiveKind::Short) => Ok(Primitive::Short(*s)),
            (ManagedValue::Int(i), PrimitiveKind::Int) => Ok(Primitive::Int(*i)),
            (ManagedValue::Long(l), PrimitiveKind::Long) => Ok(Primitive::Long(*l)),
            _ => Err(AniError::new("deserialize_primitive", STATUS_INVALID_TYPE)),
        }
    }

    /// Writes an optional primitive: `None` becomes the undefined value.
    pub fn serialize_option(&mut self, o: Option<Primitive>) -> (r: Result<AniRef, AniError>)
        requires
            old(self).wf(),
        ensures
            final(self).wf(),
            r is Ok <==> old(self).has_room(1),
            r is Err ==> *final(self) == *old(self),
            r is Ok ==> final(self).refs@.len() == old(self).refs@.len() + 1,
            r is Ok ==> final(self).extends(old(self)) && final(self).value(r->Ok_0.inner) == Some(
                encode_option(o),
            ),
    {
        match o {
            None => self.new_local(ManagedValue::Undefined),
            Some(p) => self.serialize_primitive(p),
        }
    }

    /// Reads an optional primitive of width `k`: undefined and null are
    /// `None`, a boxed primitive of width `k` is `Some`.
    pub fn deserialize_option(&self, r: &AniRef, k: PrimitiveKind) -> (res: Result<
        Option<Primitive>,
        AniError,
    >)
        requires
            self.wf(),
        ensures
            res is Ok <==> self.is_live(r.inner) && decode_option(self.value(r.inner)->Some_0, k)
                is Some,
            res is Ok ==> Some(res->Ok_0) == decode_option(self.value(r.inner)->Some_0, k),
    {
        let v = self.value_of(r)?;
        match v {
            ManagedValue::Undefined => Ok(None),
            ManagedValue::Null => Ok(None),
            _ => {
                let p = self.deserialize_primitive(r, k)?;
                Ok(Some(p))
            },
        }
    }

    /// Writes a string.
    pub fn serialize_string(&mut self, s: String) -> (r: Result<AniRef, AniError>)
        requires
            old(self).wf(),
        ensures
            final(self).wf(),
            r is Ok <==> old(self).has_room(1),
            r is Err ==> *final(self) == *old(self),
            r is Ok ==> final(self).refs@.len() == old(self).refs@.len() + 1,
            r is Ok ==> final(self).extends(old(self)) && final(self).value(r->Ok_0.inner) == Some(
                ManagedValue::Str(s),
            ),
            r is Ok ==> final(self).entry(r->Ok_0.inner).object == old(self).objects@.len(),
    {
        self.new_local(ManagedValue::Str(s))
    }

    /// Reads a string; fails unless the handle reaches a managed string.
    pub fn deserialize_string(&self, r: &AniRef) -> (res: Result<String, AniError>)
        requires
            self.wf(),
        ensures
            res is Ok <==> self.is_live(r.inner) && self.value(r.inner)->Some_0 is Str,
            res is Ok ==> self.value(r.inner) == Some(ManagedValue::Str(res->Ok_0)),
    {
        let v = self.value_of(r)?;
        match v {
            ManagedValue::Str(s) => Ok(s.clone()),
            _ => Err(AniError::new("deserialize_string", STATUS_INVALID_TYPE)),
        }
    }

    /// Writes an optional string: `None` becomes the undefined value.
    pub fn serialize_option_string(&mut self, o: Option<String>) -> (r: Result<AniRef, AniError>)
        requires
            old(self).wf(),
        ensures
            final(self).wf(),
            r is Ok <==> old(self).has_room(1),
            r is Err ==> *final(self) == *old(self),
            r is Ok ==> final(self).refs@.len() == old(self).refs@.len() + 1,
            r is Ok ==> final(self).extends(old(self)) && final(self).value(r->Ok_0.inner) == Some(
                match o {
                    None => ManagedValue::Undefined,
                    Some(s) => ManagedValue::Str(s),
                },
            ),
    {
        match o {
            None => self.new_local(ManagedValue::Undefined),
            Some(s) => self.serialize_string(s),
        }
    }

    /// Reads an optional string: undefined and null are `None`.
    pub fn deserialize_option_string(&self, r: &AniRef) -> (res: Result<Option<String>, AniError>)
        requires
            self.wf(),
        ensures
            res is Ok <==> self.is_live(r.inner) && (is_absent(self.value(r.inner)->Some_0)
                || self.value(r.inner)->Some_0 is Str),
            res is Ok ==> match res->Ok_0 {
                None => is_absent(self.value(r.inner)->Some_0),
                Some(s) => self.value(r.inner) == Some(ManagedValue::Str(s)),
            },
    {
        let v = self.value_of(r)?;
        match v {
            ManagedValue::Undefined => Ok(None),
            ManagedValue::Null => Ok(None),
            _ => {
                let s = self.deserialize_string(r)?;
                Ok(Some(s))
            },
        }
    }

    /// Writes a sequence of primitives as one managed array, through the bulk
    /// region path.
    pub fn serialize_array(&mut self, a: PrimitiveArray) -> (r: Result<AniRef, AniError>)
        requires
            old(self).wf(),
        ensures
            final(self).wf(),
            r is Ok <==> old(self).has_room(1),
            r is Err ==> *final(self) == *old(self),
            r is Ok ==> final(self).refs@.len() == old(self).refs@.len() + 1,
            r is Ok ==> final(self).extends(old(self)) && final(self).value(r->Ok_0.inner) == Some(
                encode_array(a),
            ),
    {
        let v = match a {
            PrimitiveArray::Bool(x) => ManagedValue::BoolArray(x),
            PrimitiveArray::Byte(x) => ManagedValue::ByteArray(x),
            PrimitiveArray::Short(x) => ManagedValue::ShortArray(x),
            PrimitiveArray::Int(x) => ManagedValue::IntArray(x),
            PrimitiveArray::Long(x) => ManagedValue::LongArray(x),
        };
        self.new_local(v)
    }

    /// Reads a sequence of primitives of width `k`; fails unless the handle
    /// reaches a managed array of that width.
    pub fn deserialize_array(&self, r: &AniRef, k: PrimitiveKind) -> (res: Result<
        PrimitiveArray,
        AniError,
    >)
        requires
            self.wf(),
        ensures
            res is Ok <==> self.is_live(r.inner) && is_array_of(self.value(r.inner)->Some_0, k),
            res is Ok ==> array_kind(res->Ok_0) == k && array_matches(
                self.value(r.inner)->Some_0,
                res->Ok_0,
            ),
    {
        let v = self.value_of(r)?;
        match (v, k) {
            (ManagedValue::BoolArray(x), PrimitiveKind::Bool) => Ok(
                PrimitiveArray::Bool(copy_vec(x)),
            ),
            (ManagedValue::ByteArray(x), PrimitiveKind::Byte) => Ok(
                PrimitiveArray::Byte(copy_vec(x)),
            ),
            (ManagedValue::ShortArray(x), PrimitiveKind::Short) => Ok(
                PrimitiveArray::Short(copy_vec(x)),
            ),
            (ManagedValue::IntArray(x), PrimitiveKind::Int) => Ok(PrimitiveArray::Int(copy_vec(x))),
            (ManagedValue::LongArray(x), PrimitiveKind::Long) => Ok(
                PrimitiveArray::Long(copy_vec(x)),
            ),
            _ => Err(AniError::new("deserialize_array", STATUS_INVALID_TYPE)),
        }
    }

    /// The element at `index` of a managed array of width `k`; an index
    /// outside the array is an error, never clamped.
    pub fn array_get(&self, r: &AniRef, index: usize, k: PrimitiveKind) -> (res: Result<
        Primitive,
        AniError,
    >)
        requires
            self.wf(),
        ensures
            res is Ok <==> self.is_live(r.inner) && is_array_of(self.value(r.inner)->Some_0, k)
                && index < array_len(self.value(r.inner)->Some_0),
            res is Ok ==> res->Ok_0 == array_element(self.value(r.inner)->Some_0, index as int),
            res is Err && self.is_live(r.inner) && is_array_of(self.value(r.inner)->Some_0, k)
                ==> res->Err_0.status == STATUS_OUT_OF_RANGE,
    {
        let v = self.value_of(r)?;
        match (v, k) {
            (ManagedValue::BoolArray(x), PrimitiveKind::Bool) => if index < x.len() {
                Ok(Primitive::Bool(x[index]))
            } else {
                Err(AniError::new("array_get", STATUS_OUT_OF_RANGE))
            },
            (ManagedValue::ByteArray(x), PrimitiveKind::Byte) => if index < x.len() {
                Ok(Primitive::Byte(x[index]))
            } else {
                Err(AniError::new("array_get", STATUS_OUT_OF_RANGE))
            },
            (ManagedValue::ShortArray(x), PrimitiveKind::Short) => if index < x.len() {
                Ok(Primitive::Short(x[index]))
            } else {
                Err(AniError::new("array_get", STATUS_OUT_OF_RANGE))
            },
            (ManagedValue::IntArray(x), PrimitiveKind::Int) => if index < x.len() {
                Ok(Primitive::Int(x[index]))
            } else {
                Err(AniError::new("array_get", STATUS_OUT_OF_RANGE))
            },
            (ManagedValue::LongArray(x), PrimitiveKind::Long) => if index < x.len() {
                Ok(Primitive::Long(x[index]))
            } else {
                Err(AniError::new("array_get", STATUS_OUT_OF_RANGE))
            },
            _ => Err(AniError::new("array_get", STATUS_INVALID_TYPE)),
        }
    }

    /// Writes a sequence of references as a managed array of references,
    /// passing each handle through unchanged.
    pub fn serialize_ref_array(&mut self, hs: Vec<AniRef>) -> (r: Result<AniRef, AniError>)
        requires
            old(self).wf(),
        ensures
            final(self).wf(),
            r is Ok <==> old(self).has_room(1),
            r is Err ==> *final(self) == *old(self),
            r is Ok ==> final(self).refs@.len() == old(self).refs@.len() + 1,
            r is Ok ==> final(self).extends(old(self)) && final(self).value(r->Ok_0.inner) == Some(
                ManagedValue::RefArray(hs),
            ),
    {
        self.new_local(ManagedValue::RefArray(hs))
    }

    /// Reads a managed array of references as its handles.
    pub fn deserialize_ref_array(&self, r: &AniRef) -> (res: Result<Vec<AniRef>, AniError>)
        requires
            self.wf(),
        ensures
            res is Ok <==> self.is_live(r.inner) && self.value(r.inner)->Some_0 is RefArray,
            res is Ok ==> ref_elements(self.value(r.inner)->Some_0) == Some(res->Ok_0@),
    {
        let v = self.value_of(r)?;
        match v {
            ManagedValue::RefArray(hs) => Ok(copy_vec(hs)),
            _ => Err(AniError::new("deserialize_ref_array", STATUS_INVALID_TYPE)),
        }
    }

    /// The element at `index` of a managed array of references; an index
    /// outside the array is an error, never clamped.
    pub fn array_get_ref(&self, r: &AniRef, index: usize) -> (res: Result<AniRef, AniError>)
        requires
            self.wf(),
        ensures
            res is Ok <==> self.is_live(r.inner) && self.value(r.inner)->Some_0 is RefArray
                && index < ref_elements(self.value(r.inner)->Some_0)->Some_0.len(),
            res is Ok ==> res->Ok_0 == ref_elements(self.value(r.inner)->Some_0)->Some_0[index as int],
            res is Err && self.is_live(r.inner) && self.value(r.inner)->Some_0 is RefArray
                ==> res->Err_0.status == STATUS_OUT_OF_RANGE,
    {
        let v = self.value_of(r)?;
        match v {
            ManagedValue::RefArray(hs) => {
                if index < hs.len() {
                    Ok(hs[index])
                } else {
                    Err(AniError::new("array_get_ref", STATUS_OUT_OF_RANGE))
                }
            },
            _ => Err(AniError::new("array_get_ref", STATUS_INVALID_TYPE)),
        }
    }

    /// Writes a byte buffer as a managed array buffer.
    pub fn serialize_array_buffer(&mut self, bytes: Vec<u8>) -> (r: Result<AniRef, AniError>)
        requires
            old(self).wf(),
        ensures
            final(self).wf(),
            r is Ok <==> old(self).has_room(1),
            r is Err ==> *final(self) == *old(self),
            r is Ok ==> final(self).refs@.len() == old(self).refs@.len() + 1,
            r is Ok ==> final(self).extends(old(self)) && final(self).value(r->Ok_0.inner) == Some(
                ManagedValue::ArrayBuffer(bytes),
            ),
    {
        self.new_local(ManagedValue::ArrayBuffer(bytes))
    }

    /// Reads the bytes of a managed array buffer.
    pub fn deserialize_array_buffer(&self, r: &AniRef) -> (res: Result<Vec<u8>, AniError>)
        requires
            self.wf(),
        ensures
            res is Ok <==> self.is_live(r.inner) && self.value(r.inner)->Some_0 is ArrayBuffer,
            res is Ok ==> self.value(r.inner)->Some_0->ArrayBuffer_0@ == res->Ok_0@,
    {
        let v = self.value_of(r)?;
        match v {
            ManagedValue::ArrayBuffer(b) => Ok(copy_vec(b)),
            _ => Err(AniError::new("deserialize_array_buffer", STATUS_INVALID_TYPE)),
        }
    }
}

} // verus!

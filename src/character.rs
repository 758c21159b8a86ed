//! The runtime's character width: one UTF-16 code unit. A unit that is a
//! surrogate stands for no character on its own.
use vstd::prelude::*;

use crate::env::{AniEnv, AniRef, ManagedValue, STATUS_INVALID_TYPE};
use crate::error::AniError;
use crate::layout::{first_index, ClassLayout};

verus! {

/// Status of a value that does not fit the runtime's width for it.
pub const STATUS_INVALID_ARGS: i32 = 2;

/// Whether `x` is the scalar value of a character: at most 0x10FFFF and
/// outside the surrogate range.
pub open spec fn is_scalar(x: u32) -> bool {
    x <= 0xD7FF || (0xE000 <= x && x <= 0x10FFFF)
}

/// Relies on `char::from_u32`: `Some` exactly for scalar values, holding the
/// character with that value.
#[verifier::external_body]
fn char_from_u32(x: u32) -> (r: Option<char>)
    ensures
        r is Some <==> is_scalar(x),
        r is Some ==> r->Some_0 as u32 == x,
{
    char::from_u32(x)
}

/// The character a runtime call returned as one code unit, after its status:
/// a non-zero status is the error, and so is a lone surrogate.
pub fn char_from_unit(status: i32, unit: u16) -> (r: Result<char, AniError>)
    ensures
        status != 0 ==> r is Err && r->Err_0.status == status,
        status == 0 && 0xD800 <= unit <= 0xDFFF ==> r is Err && r->Err_0.status
            == STATUS_INVALID_TYPE,
        status == 0 && !(0xD800 <= unit <= 0xDFFF) ==> r is Ok && r->Ok_0 as u32 == unit as u32,
{
    if status != 0 {
        return Err(AniError::new("char_from_unit", status));
    }
    match char_from_u32(unit as u32) {
        Some(c) => Ok(c),
        None => Err(AniError::new("char_from_unit", STATUS_INVALID_TYPE)),
    }
}

/// The code unit of a character, where it fits in one.
pub fn char_to_unit(c: char) -> (r: Result<u16, AniError>)
    ensures
        (c as u32) <= 0xFFFF ==> r is Ok && r->Ok_0 as u32 == c as u32,
        (c as u32) > 0xFFFF ==> r is Err && r->Err_0.status == STATUS_INVALID_ARGS,
{
    let x = c as u32;
    if x > 0xFFFF {
        Err(AniError::new("char_to_unit", STATUS_INVALID_ARGS))
    } else {
        Ok(x as u16)
    }
}

impl AniEnv {
    /// Writes a character as a boxed managed character; one outside the
    /// basic plane does not fit and is refused.
    pub fn box_char(&mut self, c: char) -> (r: Result<AniRef, AniError>)
        requires
            old(self).wf(),
        ensures
            final(self).wf(),
            r is Ok <==> (c as u32) <= 0xFFFF && old(self).has_room(1),
            r is Err ==> *final(self) == *old(self),
            r is Ok ==> final(self).extends(old(self)) && final(self).value(r->Ok_0.inner)
                is Some && final(self).value(r->Ok_0.inner)->Some_0 is Char && final(self).value(
                r->Ok_0.inner,
            )->Some_0->Char_0 as u32 == c as u32,
            r is Ok ==> final(self).refs@.len() == old(self).refs@.len() + 1 && final(self).entry(
                r->Ok_0.inner,
            ).object == old(self).objects@.len(),
    {
        let unit = char_to_unit(c)?;
        self.new_local(ManagedValue::Char(unit))
    }

    /// Reads a boxed managed character; fails unless the handle reaches one
    /// that is not a lone surrogate.
    pub fn unbox_char(&self, r: &AniRef) -> (res: Result<char, AniError>)
        requires
            self.wf(),
        ensures
            res is Ok <==> self.is_live(r.inner) && self.value(r.inner)->Some_0 is Char && !(
            0xD800 <= self.value(r.inner)->Some_0->Char_0 <= 0xDFFF),
            res is Ok ==> res->Ok_0 as u32 == self.value(r.inner)->Some_0->Char_0 as u32,
    {
        let v = self.value_of(r)?;
        match v {
            ManagedValue::Char(u) => char_from_unit(0, *u),
            _ => Err(AniError::new("unbox_char", STATUS_INVALID_TYPE)),
        }
    }
}

/// The first position of `name` in `names` is unique.
pub proof fn lemma_first_index_unique(names: Seq<String>, name: Seq<char>, i: int, j: int)
    requires
        first_index(names, name, i),
        first_index(names, name, j),
    ensures
        i == j,
{
    if i < j {
        assert(names[i]@ == name);
    } else if j < i {
        assert(names[j]@ == name);
    }
}

/// The code unit held by the character field `name` of the object `h` laid
/// out as `layout`, if that field holds a character.
pub open spec fn char_field(env: &AniEnv, h: u64, layout: &ClassLayout, name: Seq<char>) -> Option<u16> {
    if env.fits_layout(h, layout) && exists|i: int| first_index(layout.field_names@, name, i) {
        let i = choose|i: int| first_index(layout.field_names@, name, i);
        let f = env.value(h)->Some_0->fields@[i].inner;
        if env.value(f) is Some && env.value(f)->Some_0 is Char {
            Some(env.value(f)->Some_0->Char_0)
        } else {
            None
        }
    } else {
        None
    }
}

/// A character written to a field reads back as itself: its code unit is
/// never a surrogate, so reading the field succeeds with the same value.
pub proof fn lemma_char_field_round_trip(env: &AniEnv, h: u64, layout: &ClassLayout, name: Seq<char>, c: char)
    requires
        char_field(env, h, layout, name) == Some(c as u16),
        (c as u32) <= 0xFFFF,
    ensures
        !(0xD800 <= char_field(env, h, layout, name)->Some_0 <= 0xDFFF),
        char_field(env, h, layout, name)->Some_0 as u32 == c as u32,
{
}

impl AniEnv {
    /// Reads the character field `name` of an object laid out as `layout`.
    pub fn get_char_property(&self, r: &AniRef, layout: &ClassLayout, name: &String) -> (res: Result<
        char,
        AniError,
    >)
        requires
            self.wf(),
        ensures
            res is Ok <==> char_field(self, r.inner, layout, name@) is Some && !(0xD800
                <= char_field(self, r.inner, layout, name@)->Some_0 <= 0xDFFF),
            res is Ok ==> res->Ok_0 as u32 == char_field(self, r.inner, layout, name@)->Some_0 as u32,
    {
        let f = self.get_property(r, layout, name);
        proof {
            if f is Ok {
                let i = choose|i: int| first_index(layout.field_names@, name@, i) && f->Ok_0 == self.value(
                    r.inner,
                )->Some_0->fields@[i];
                let k = choose|k: int| first_index(layout.field_names@, name@, k);
                lemma_first_index_unique(layout.field_names@, name@, i, k);
            }
        }
        let f = f?;
        self.unbox_char(&f)
    }

    /// Writes `c` to the character field `name` of an object laid out as
    /// `layout`: the character is boxed, then stored in the field. Fails where
    /// the character needs two code units, the table is full, or the object
    /// has no such field.
    pub fn set_char_property(&mut self, r: &AniRef, layout: &ClassLayout, name: &String, c: char) -> (res:
        Result<(), AniError>)
        requires
            old(self).wf(),
        ensures
            final(self).wf(),
            res is Ok <==> (c as u32) <= 0xFFFF && old(self).has_room(1) && old(self).fits_layout(
                r.inner,
                layout,
            ) && exists|i: int| first_index(layout.field_names@, name@, i),
            res is Ok ==> char_field(final(self), r.inner, layout, name@) == Some(c as u16),
    {
        let ghost e0 = *self;
        if let Err(e) = self.get_property(r, layout, name) {
            return Err(e);
        }
        let h = self.box_char(c)?;
        let ghost e1 = *self;
        proof {
            crate::compound::lemma_extends_value(&e1, &e0, r.inner);
        }
        let res = self.set_property(r, layout, name, h);
        proof {
            if res is Ok {
                let i = choose|i: int|
                    first_index(layout.field_names@, name@, i) && self.value(r.inner) is Some
                        && self.value(r.inner)->Some_0 is Object && self.value(r.inner)->Some_0->class@
                        == layout.class@ && self.value(r.inner)->Some_0->fields@ == e1.value(
                        r.inner,
                    )->Some_0->fields@.update(i, h);
                let k = choose|k: int| first_index(layout.field_names@, name@, k);
                lemma_first_index_unique(layout.field_names@, name@, i, k);
                assert(self.value(r.inner)->Some_0->fields@[k] == h);
                assert(e1.entry(h.inner).object == e0.objects@.len());
                assert(e0.refs@[r.inner - 1].object < e0.objects@.len());
                assert(e1.refs@[r.inner - 1] == e0.refs@[r.inner - 1]);
                assert(self.objects@[e1.entry(h.inner).object as int] == e1.objects@[e1.entry(h.inner).object as int]);
                assert((c as u32) <= 0xFFFF);
            }
        }
        res
    }
}

/// A character of the basic plane, written and read back, is itself.
pub proof fn lemma_char_round_trip(c: char, unit: u16)
    requires
        unit as u32 == c as u32,
    ensures
        !(0xD800 <= unit <= 0xDFFF),
{
}

} // verus!

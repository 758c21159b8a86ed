//! Access to the fields of an object by name: the layout of a class names
//! its fields in declaration order, and a cache keyed by class name keeps the
//! layout first registered for each class.
use vstd::prelude::*;

use crate::env::{AniEnv, AniRef, ManagedValue, STATUS_INVALID_TYPE, STATUS_NOT_FOUND};
use crate::error::AniError;

verus! {

/// The fields of a class, by name, in declaration order.
pub struct ClassLayout {
    pub class: String,
    pub field_names: Vec<String>,
}

/// Whether `i` is the first position of `name` in `names`.
pub open spec fn first_index(names: Seq<String>, name: Seq<char>, i: int) -> bool {
    &&& 0 <= i < names.len()
    &&& names[i]@ == name
    &&& forall|j: int| 0 <= j < i ==> (#[trigger] names[j])@ != name
}

impl ClassLayout {
    /// Where the field `name` stands, if the class has it.
    pub fn field_index(&self, name: &String) -> (r: Option<usize>)
        ensures
            r is Some ==> first_index(self.field_names@, name@, r->Some_0 as int),
            r is None ==> forall|j: int|
                0 <= j < self.field_names@.len() ==> (#[trigger] self.field_names@[j])@ != name@,
    {
        let mut i: usize = 0;
        while i < self.field_names.len()
            invariant
                i <= self.field_names@.len(),
                forall|j: int| 0 <= j < i ==> (#[trigger] self.field_names@[j])@ != name@,
            decreases self.field_names@.len() - i,
        {
            if self.field_names[i] == *name {
                return Some(i);
            }
            i = i + 1;
        }
        None
    }
}

impl AniEnv {
    /// Whether `h` reaches an object of the class of `layout` with a field
    /// for each of its names.
    pub open spec fn fits_layout(&self, h: u64, layout: &ClassLayout) -> bool {
        &&& self.value(h) is Some
        &&& self.value(h)->Some_0 is Object
        &&& self.value(h)->Some_0->class@ == layout.class@
        &&& self.value(h)->Some_0->fields@.len() == layout.field_names@.len()
    }

    /// The field `name` of an object laid out as `layout`. Fails on a dead
    /// handle, an object of another shape, or a name the class lacks.
    pub fn get_property(&self, r: &AniRef, layout: &ClassLayout, name: &String) -> (res: Result<
        AniRef,
        AniError,
    >)
        requires
            self.wf(),
        ensures
            res is Ok <==> self.fits_layout(r.inner, layout) && exists|i: int|
                first_index(layout.field_names@, name@, i),
            res is Ok ==> exists|i: int|
                first_index(layout.field_names@, name@, i) && res->Ok_0 == self.value(
                    r.inner,
                )->Some_0->fields@[i],
    {
        let v = self.value_of(r)?;
        let fields = match v {
            ManagedValue::Object { class, fields } => {
                if *class != layout.class || fields.len() != layout.field_names.len() {
                    return Err(AniError::new("get_property", STATUS_INVALID_TYPE));
                }
                fields
            },
            _ => {
                return Err(AniError::new("get_property", STATUS_INVALID_TYPE));
            },
        };
        match layout.field_index(name) {
            Some(i) => Ok(fields[i]),
            None => Err(AniError::new("get_property", STATUS_NOT_FOUND)),
        }
    }

    /// Sets the field `name` of an object laid out as `layout` to `value`;
    /// nothing else changes. Fails, changing nothing, where `get_property`
    /// would.
    pub fn set_property(&mut self, r: &AniRef, layout: &ClassLayout, name: &String, value: AniRef) -> (res:
        Result<(), AniError>)
        requires
            old(self).wf(),
        ensures
            final(self).wf(),
            res is Ok <==> old(self).fits_layout(r.inner, layout) && exists|i: int|
                first_index(layout.field_names@, name@, i),
            res is Err ==> *final(self) == *old(self),
            res is Ok ==> {
                &&& final(self).refs@ == old(self).refs@
                &&& final(self).calls@ == old(self).calls@
                &&& final(self).objects@.len() == old(self).objects@.len()
                &&& forall|o: int|
                    0 <= o < old(self).objects@.len() && o != old(self).entry(r.inner).object
                        ==> final(self).objects@[o] == old(self).objects@[o]
                &&& exists|i: int|
                    first_index(layout.field_names@, name@, i) && final(self).value(r.inner)
                        is Some && final(self).value(r.inner)->Some_0 is Object
                        && final(self).value(r.inner)->Some_0->class@ == layout.class@
                        && final(self).value(r.inner)->Some_0->fields@ == old(self).value(
                        r.inner,
                    )->Some_0->fields@.update(i, value)
            },
    {
        let (class, fields) = match self.value_of(r)? {
            ManagedValue::Object { class, fields } => {
                if *class != layout.class || fields.len() != layout.field_names.len() {
                    return Err(AniError::new("set_property", STATUS_INVALID_TYPE));
                }
                (class.clone(), crate::compound::copy_refs(fields))
            },
            _ => {
                return Err(AniError::new("set_property", STATUS_INVALID_TYPE));
            },
        };
        let i = match layout.field_index(name) {
            Some(i) => i,
            None => {
                return Err(AniError::new("set_property", STATUS_NOT_FOUND));
            },
        };
        let mut fields = fields;
        fields.set(i, value);
        let o = self.refs[(r.inner - 1) as usize].object;
        self.objects.set(o, ManagedValue::Object { class, fields });
        Ok(())
    }
    /// Writes the string `s` to the field `name` of an object laid out as
    /// `layout`: the string is written, then stored in the field. Fails where
    /// the table is full or the object has no such field.
    pub fn set_string_property(&mut self, r: &AniRef, layout: &ClassLayout, name: &String, s: String) -> (res:
        Result<(), AniError>)
        requires
            old(self).wf(),
        ensures
            final(self).wf(),
            res is Ok <==> old(self).has_room(1) && old(self).fits_layout(r.inner, layout) && exists|
                i: int,
            | first_index(layout.field_names@, name@, i),
            res is Ok ==> exists|i: int|
                first_index(layout.field_names@, name@, i) && final(self).value(
                    #[trigger] final(self).value(r.inner)->Some_0->fields@[i].inner,
                ) == Some(ManagedValue::Str(s)),
    {
        let ghost e0 = *self;
        if let Err(e) = self.get_property(r, layout, name) {
            return Err(e);
        }
        let h = self.serialize_string(s)?;
        let ghost e1 = *self;
        proof {
            crate::compound::lemma_extends_value(&e1, &e0, r.inner);
        }
        let res = self.set_property(r, layout, name, h);
        proof {
            if res is Ok {
                let i = choose|i: int|
                    first_index(layout.field_names@, name@, i) && self.value(r.inner) is Some
                        && self.value(r.inner)->Some_0 is Object && self.value(r.inner)->Some_0->class@
                        == layout.class@ && self.value(r.inner)->Some_0->fields@ == e1.value(
                        r.inner,
                    )->Some_0->fields@.update(i, h);
                assert(self.value(r.inner)->Some_0->fields@[i] == h);
                assert(e0.refs@[r.inner - 1].object < e0.objects@.len());
                assert(e1.refs@[r.inner - 1] == e0.refs@[r.inner - 1]);
            }
        }
        res
    }
}

/// The layouts of classes, keyed by class name. The first layout
/// registered for a name is the one kept: registering is done once per
/// class, and lookups after that only read.
pub struct ClassCache {
    pub layouts: Vec<ClassLayout>,
}

/// Whether `i` is the first layout of `layouts` for `class`.
pub open spec fn first_layout(layouts: Seq<ClassLayout>, class: Seq<char>, i: int) -> bool {
    &&& 0 <= i < layouts.len()
    &&& layouts[i].class@ == class
    &&& forall|j: int| 0 <= j < i ==> (#[trigger] layouts[j]).class@ != class
}

impl ClassCache {
    /// Whether a layout of `class` is registered.
    pub open spec fn has_layout(&self, class: Seq<char>) -> bool {
        exists|i: int| first_layout(self.layouts@, class, i)
    }

    /// An empty cache.
    pub fn new() -> (r: ClassCache)
        ensures
            r.layouts@.len() == 0,
    {
        ClassCache { layouts: Vec::new() }
    }

    /// Where the layout of `class` is kept, if it was registered.
    pub fn lookup(&self, class: &String) -> (r: Option<usize>)
        ensures
            r is Some ==> first_layout(self.layouts@, class@, r->Some_0 as int),
            r is None ==> forall|j: int|
                0 <= j < self.layouts@.len() ==> (#[trigger] self.layouts@[j]).class@ != class@,
    {
        let mut i: usize = 0;
        while i < self.layouts.len()
            invariant
                i <= self.layouts@.len(),
                forall|j: int| 0 <= j < i ==> (#[trigger] self.layouts@[j]).class@ != class@,
            decreases self.layouts@.len() - i,
        {
            if self.layouts[i].class == *class {
                return Some(i);
            }
            i = i + 1;
        }
        None
    }

    /// The position of the layout of `layout`'s class, registering `layout`
    /// only when that class has none yet; a registered layout is never
    /// replaced.
    pub fn get_or_init(&mut self, layout: ClassLayout) -> (r: usize)
        ensures
            old(self).has_layout(layout.class@) ==> final(self).layouts@ == old(self).layouts@
                && first_layout(old(self).layouts@, layout.class@, r as int),
            !old(self).has_layout(layout.class@) ==> final(self).layouts@ == old(self).layouts@.push(layout)
                && r == old(self).layouts@.len() && first_layout(final(self).layouts@, layout.class@, r as int),
    {
        match self.lookup(&layout.class) {
            Some(i) => i,
            None => {
                let i = self.layouts.len();
                let ghost l = layout;
                self.layouts.push(layout);
                proof {
                    assert(self.layouts@[i as int] == l);
                    assert forall|j: int| 0 <= j < i implies (#[trigger] self.layouts@[j]).class@
                        != l.class@ by {
                        assert(self.layouts@[j] == old(self).layouts@[j]);
                    }
                    assert forall|k: int| !first_layout(old(self).layouts@, l.class@, k) by {
                        if 0 <= k < old(self).layouts@.len() {
                            assert(old(self).layouts@[k].class@ != l.class@);
                        }
                    }
                }
                i
            },
        }
    }
}

} // verus!

//! Typed views of binary data: the array buffer and the fixed-width typed
//! arrays of the managed runtime.
use vstd::prelude::*;

verus! {

/// The kinds of typed array the runtime offers.
#[derive(Clone, Copy, PartialEq, Eq, Structural, Debug)]
pub enum TypedArray {
    Int8,
    Int16,
    Int32,
    Uint8,
    Uint16,
    Uint32,
}

/// The runtime class of each kind of typed array.
pub open spec fn typed_array_class(t: TypedArray) -> Seq<char> {
    match t {
        TypedArray::Int8 => "escompat.Int8Array"@,
        TypedArray::Int16 => "escompat.Int16Array"@,
        TypedArray::Int32 => "escompat.Int32Array"@,
        TypedArray::Uint8 => "escompat.Uint8Array"@,
        TypedArray::Uint16 => "escompat.Uint16Array"@,
        TypedArray::Uint32 => "escompat.Uint32Array"@,
    }
}

impl TypedArray {
    /// The name of the runtime class of this kind of typed array.
    pub fn ani_class(&self) -> (r: String)
        ensures
            r@ == typed_array_class(*self),
    {
        match self {
            TypedArray::Int8 => String::from_str("escompat.Int8Array"),
            TypedArray::Int16 => String::from_str("escompat.Int16Array"),
            TypedArray::Int32 => String::from_str("escompat.Int32Array"),
            TypedArray::Uint8 => String::from_str("escompat.Uint8Array"),
            TypedArray::Uint16 => String::from_str("escompat.Uint16Array"),
            TypedArray::Uint32 => String::from_str("escompat.Uint32Array"),
        }
    }
}

/// A raw array buffer: bytes owned by the runtime.
pub struct ArrayBuffer {
    pub data: Vec<u8>,
}

impl ArrayBuffer {
    /// Wraps the given elements.
    pub fn new_with_vec(data: Vec<u8>) -> (r: ArrayBuffer)
        ensures
            r.data@ == data@,
    {
        ArrayBuffer { data }
    }

    /// A copy of the elements.
    pub fn to_vec(&self) -> (r: Vec<u8>)
        ensures
            r@ == self.data@,
    {
        let mut out: Vec<u8> = Vec::new();
        let mut i: usize = 0;
        while i < self.data.len()
            invariant
                i <= self.data@.len(),
                out@ == self.data@.subrange(0, i as int),
            decreases self.data@.len() - i,
        {
            out.push(self.data[i]);
            i = i + 1;
        }
        assert(self.data@.subrange(0, self.data@.len() as int) == self.data@);
        out
    }

    /// The number of elements.
    pub fn len(&self) -> (r: usize)
        ensures
            r == self.data@.len(),
    {
        self.data.len()
    }

    /// Adds one to every element in place.
    pub fn increment_all(&mut self)
        requires
            forall|i: int| 0 <= i < old(self).data@.len() ==> old(self).data@[i] < u8::MAX,
        ensures
            final(self).data@.len() == old(self).data@.len(),
            forall|i: int|
                0 <= i < old(self).data@.len() ==> final(self).data@[i] == old(self).data@[i] + 1,
    {
        let mut i: usize = 0;
        while i < self.data.len()
            invariant
                i <= self.data@.len(),
                self.data@.len() == old(self).data@.len(),
                forall|j: int| 0 <= j < i ==> self.data@[j] == old(self).data@[j] + 1,
                forall|j: int| i <= j < self.data@.len() ==> self.data@[j] == old(self).data@[j],
                forall|j: int| 0 <= j < old(self).data@.len() ==> old(self).data@[j] < u8::MAX,
            decreases self.data@.len() - i,
        {
            let v = self.data[i];
            self.data.set(i, v + 1);
            i = i + 1;
        }
    }
}

/// A typed array of signed bytes.
pub struct Int8Array {
    pub data: Vec<i8>,
}

impl Int8Array {
    /// Wraps the given elements.
    pub fn new_with_vec(data: Vec<i8>) -> (r: Int8Array)
        ensures
            r.data@ == data@,
    {
        Int8Array { data }
    }

    /// A copy of the elements.
    pub fn to_vec(&self) -> (r: Vec<i8>)
        ensures
            r@ == self.data@,
    {
        let mut out: Vec<i8> = Vec::new();
        let mut i: usize = 0;
        while i < self.data.len()
            invariant
                i <= self.data@.len(),
                out@ == self.data@.subrange(0, i as int),
            decreases self.data@.len() - i,
        {
            out.push(self.data[i]);
            i = i + 1;
        }
        assert(self.data@.subrange(0, self.data@.len() as int) == self.data@);
        out
    }

    /// The number of elements.
    pub fn len(&self) -> (r: usize)
        ensures
            r == self.data@.len(),
    {
        self.data.len()
    }

    /// Adds one to every element in place.
    pub fn increment_all(&mut self)
        requires
            forall|i: int| 0 <= i < old(self).data@.len() ==> old(self).data@[i] < i8::MAX,
        ensures
            final(self).data@.len() == old(self).data@.len(),
            forall|i: int|
                0 <= i < old(self).data@.len() ==> final(self).data@[i] == old(self).data@[i] + 1,
    {
        let mut i: usize = 0;
        while i < self.data.len()
            invariant
                i <= self.data@.len(),
                self.data@.len() == old(self).data@.len(),
                forall|j: int| 0 <= j < i ==> self.data@[j] == old(self).data@[j] + 1,
                forall|j: int| i <= j < self.data@.len() ==> self.data@[j] == old(self).data@[j],
                forall|j: int| 0 <= j < old(self).data@.len() ==> old(self).data@[j] < i8::MAX,
            decreases self.data@.len() - i,
        {
            let v = self.data[i];
            self.data.set(i, v + 1);
            i = i + 1;
        }
    }
}

/// A typed array of unsigned bytes.
pub struct Uint8Array {
    pub data: Vec<u8>,
}

impl Uint8Array {
    /// Wraps the given elements.
    pub fn new_with_vec(data: Vec<u8>) -> (r: Uint8Array)
        ensures
            r.data@ == data@,
    {
        Uint8Array { data }
    }

    /// A copy of the elements.
    pub fn to_vec(&self) -> (r: Vec<u8>)
        ensures
            r@ == self.data@,
    {
        let mut out: Vec<u8> = Vec::new();
        let mut i: usize = 0;
        while i < self.data.len()
            invariant
                i <= self.data@.len(),
                out@ == self.data@.subrange(0, i as int),
            decreases self.data@.len() - i,
        {
            out.push(self.data[i]);
            i = i + 1;
        }
        assert(self.data@.subrange(0, self.data@.len() as int) == self.data@);
        out
    }

    /// The number of elements.
    pub fn len(&self) -> (r: usize)
        ensures
            r == self.data@.len(),
    {
        self.data.len()
    }

    /// Adds one to every element in place.
    pub fn increment_all(&mut self)
        requires
            forall|i: int| 0 <= i < old(self).data@.len() ==> old(self).data@[i] < u8::MAX,
        ensures
            final(self).data@.len() == old(self).data@.len(),
            forall|i: int|
                0 <= i < old(self).data@.len() ==> final(self).data@[i] == old(self).data@[i] + 1,
    {
        let mut i: usize = 0;
        while i < self.data.len()
            invariant
                i <= self.data@.len(),
                self.data@.len() == old(self).data@.len(),
                forall|j: int| 0 <= j < i ==> self.data@[j] == old(self).data@[j] + 1,
                forall|j: int| i <= j < self.data@.len() ==> self.data@[j] == old(self).data@[j],
                forall|j: int| 0 <= j < old(self).data@.len() ==> old(self).data@[j] < u8::MAX,
            decreases self.data@.len() - i,
        {
            let v = self.data[i];
            self.data.set(i, v + 1);
            i = i + 1;
        }
    }
}

/// A typed array of signed 16-bit integers.
pub struct Int16Array {
    pub data: Vec<i16>,
}

impl Int16Array {
    /// Wraps the given elements.
    pub fn new_with_vec(data: Vec<i16>) -> (r: Int16Array)
        ensures
            r.data@ == data@,
    {
        Int16Array { data }
    }

    /// A copy of the elements.
    pub fn to_vec(&self) -> (r: Vec<i16>)
        ensures
            r@ == self.data@,
    {
        let mut out: Vec<i16> = Vec::new();
        let mut i: usize = 0;
        while i < self.data.len()
            invariant
                i <= self.data@.len(),
                out@ == self.data@.subrange(0, i as int),
            decreases self.data@.len() - i,
        {
            out.push(self.data[i]);
            i = i + 1;
        }
        assert(self.data@.subrange(0, self.data@.len() as int) == self.data@);
        out
    }

    /// The number of elements.
    pub fn len(&self) -> (r: usize)
        ensures
            r == self.data@.len(),
    {
        self.data.len()
    }

    /// Adds one to every element in place.
    pub fn increment_all(&mut self)
        requires
            forall|i: int| 0 <= i < old(self).data@.len() ==> old(self).data@[i] < i16::MAX,
        ensures
            final(self).data@.len() == old(self).data@.len(),
            forall|i: int|
                0 <= i < old(self).data@.len() ==> final(self).data@[i] == old(self).data@[i] + 1,
    {
        let mut i: usize = 0;
        while i < self.data.len()
            invariant
                i <= self.data@.len(),
                self.data@.len() == old(self).data@.len(),
                forall|j: int| 0 <= j < i ==> self.data@[j] == old(self).data@[j] + 1,
                forall|j: int| i <= j < self.data@.len() ==> self.data@[j] == old(self).data@[j],
                forall|j: int| 0 <= j < old(self).data@.len() ==> old(self).data@[j] < i16::MAX,
            decreases self.data@.len() - i,
        {
            let v = self.data[i];
            self.data.set(i, v + 1);
            i = i + 1;
        }
    }
}

/// A typed array of unsigned 16-bit integers.
pub struct Uint16Array {
    pub data: Vec<u16>,
}

impl Uint16Array {
    /// Wraps the given elements.
    pub fn new_with_vec(data: Vec<u16>) -> (r: Uint16Array)
        ensures
            r.data@ == data@,
    {
        Uint16Array { data }
    }

    /// A copy of the elements.
    pub fn to_vec(&self) -> (r: Vec<u16>)
        ensures
            r@ == self.data@,
    {
        let mut out: Vec<u16> = Vec::new();
        let mut i: usize = 0;
        while i < self.data.len()
            invariant
                i <= self.data@.len(),
                out@ == self.data@.subrange(0, i as int),
            decreases self.data@.len() - i,
        {
            out.push(self.data[i]);
            i = i + 1;
        }
        assert(self.data@.subrange(0, self.data@.len() as int) == self.data@);
        out
    }

    /// The number of elements.
    pub fn len(&self) -> (r: usize)
        ensures
            r == self.data@.len(),
    {
        self.data.len()
    }

    /// Adds one to every element in place.
    pub fn increment_all(&mut self)
        requires
            forall|i: int| 0 <= i < old(self).data@.len() ==> old(self).data@[i] < u16::MAX,
        ensures
            final(self).data@.len() == old(self).data@.len(),
            forall|i: int|
                0 <= i < old(self).data@.len() ==> final(self).data@[i] == old(self).data@[i] + 1,
    {
        let mut i: usize = 0;
        while i < self.data.len()
            invariant
                i <= self.data@.len(),
                self.data@.len() == old(self).data@.len(),
                forall|j: int| 0 <= j < i ==> self.data@[j] == old(self).data@[j] + 1,
                forall|j: int| i <= j < self.data@.len() ==> self.data@[j] == old(self).data@[j],
                forall|j: int| 0 <= j < old(self).data@.len() ==> old(self).data@[j] < u16::MAX,
            decreases self.data@.len() - i,
        {
            let v = self.data[i];
            self.data.set(i, v + 1);
            i = i + 1;
        }
    }
}

/// A typed array of signed 32-bit integers.
pub struct Int32Array {
    pub data: Vec<i32>,
}

impl Int32Array {
    /// Wraps the given elements.
    pub fn new_with_vec(data: Vec<i32>) -> (r: Int32Array)
        ensures
            r.data@ == data@,
    {
        Int32Array { data }
    }

    /// A copy of the elements.
    pub fn to_vec(&self) -> (r: Vec<i32>)
        ensures
            r@ == self.data@,
    {
        let mut out: Vec<i32> = Vec::new();
        let mut i: usize = 0;
        while i < self.data.len()
            invariant
                i <= self.data@.len(),
                out@ == self.data@.subrange(0, i as int),
            decreases self.data@.len() - i,
        {
            out.push(self.data[i]);
            i = i + 1;
        }
        assert(self.data@.subrange(0, self.data@.len() as int) == self.data@);
        out
    }

    /// The number of elements.
    pub fn len(&self) -> (r: usize)
        ensures
            r == self.data@.len(),
    {
        self.data.len()
    }

    /// Adds one to every element in place.
    pub fn increment_all(&mut self)
        requires
            forall|i: int| 0 <= i < old(self).data@.len() ==> old(self).data@[i] < i32::MAX,
        ensures
            final(self).data@.len() == old(self).data@.len(),
            forall|i: int|
                0 <= i < old(self).data@.len() ==> final(self).data@[i] == old(self).data@[i] + 1,
    {
        let mut i: usize = 0;
        while i < self.data.len()
            invariant
                i <= self.data@.len(),
                self.data@.len() == old(self).data@.len(),
                forall|j: int| 0 <= j < i ==> self.data@[j] == old(self).data@[j] + 1,
                forall|j: int| i <= j < self.data@.len() ==> self.data@[j] == old(self).data@[j],
                forall|j: int| 0 <= j < old(self).data@.len() ==> old(self).data@[j] < i32::MAX,
            decreases self.data@.len() - i,
        {
            let v = self.data[i];
            self.data.set(i, v + 1);
            i = i + 1;
        }
    }
}

/// A typed array of unsigned 32-bit integers.
pub struct Uint32Array {
    pub data: Vec<u32>,
}

impl Uint32Array {
    /// Wraps the given elements.
    pub fn new_with_vec(data: Vec<u32>) -> (r: Uint32Array)
        ensures
            r.data@ == data@,
    {
        Uint32Array { data }
    }

    /// A copy of the elements.
    pub fn to_vec(&self) -> (r: Vec<u32>)
        ensures
            r@ == self.data@,
    {
        let mut out: Vec<u32> = Vec::new();
        let mut i: usize = 0;
        while i < self.data.len()
            invariant
                i <= self.data@.len(),
                out@ == self.data@.subrange(0, i as int),
            decreases self.data@.len() - i,
        {
            out.push(self.data[i]);
            i = i + 1;
        }
        assert(self.data@.subrange(0, self.data@.len() as int) == self.data@);
        out
    }

    /// The number of elements.
    pub fn len(&self) -> (r: usize)
        ensures
            r == self.data@.len(),
    {
        self.data.len()
    }

    /// Adds one to every element in place.
    pub fn increment_all(&mut self)
        requires
            forall|i: int| 0 <= i < old(self).data@.len() ==> old(self).data@[i] < u32::MAX,
        ensures
            final(self).data@.len() == old(self).data@.len(),
            forall|i: int|
                0 <= i < old(self).data@.len() ==> final(self).data@[i] == old(self).data@[i] + 1,
    {
        let mut i: usize = 0;
        while i < self.data.len()
            invariant
                i <= self.data@.len(),
                self.data@.len() == old(self).data@.len(),
                forall|j: int| 0 <= j < i ==> self.data@[j] == old(self).data@[j] + 1,
                forall|j: int| i <= j < self.data@.len() ==> self.data@[j] == old(self).data@[j],
                forall|j: int| 0 <= j < old(self).data@.len() ==> old(self).data@[j] < u32::MAX,
            decreases self.data@.len() - i,
        {
            let v = self.data[i];
            self.data.set(i, v + 1);
            i = i + 1;
        }
    }
}

} // verus!

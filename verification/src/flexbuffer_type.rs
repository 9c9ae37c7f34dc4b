use vstd::prelude::*;

verus! {

/// The type of a value in a flexbuffer, as packed into the upper six bits of
/// its type byte. `to_u8` gives the code that the format uses for each type.
#[derive(Clone, Copy, Debug, PartialEq, Eq, Structural, PartialOrd, Ord, Hash)]
pub enum FlexBufferType {
    /// Nulls are represented with `()` in Rust.
    Null,
    /// Variable width signed integer: `i8, i16, i32, i64`
    Int,
    /// Variable width unsigned integer: `u8, u16, u32, u64`
    UInt,
    /// Variable width floating point: `f32, f64`
    Float,
    /// A null terminated string of bytes, used as the keys of maps.
    Key,
    /// A length-prefixed UTF-8 string.
    String,
    /// An `Int` stored by offset rather than inline.
    IndirectInt,
    /// A `UInt` stored by offset rather than inline.
    IndirectUInt,
    /// A `Float` stored by offset rather than inline.
    IndirectFloat,
    /// Maps a sorted vector of keys to a vector of values.
    KeyValueMap,
    /// A vector whose elements each carry their own type.
    Vector,
    /// A vector of `Int`s sharing one width.
    VectorInt,
    /// A vector of `UInt`s sharing one width.
    VectorUInt,
    /// A vector of `Float`s sharing one width.
    VectorFloat,
    /// A vector of `Key`s sharing one width.
    VectorKey,
    /// A vector of strings; deprecated by the format, read as keys.
    VectorString,
    /// Two `Int`s.
    VectorInt2,
    /// Two `UInt`s.
    VectorUInt2,
    /// Two `Float`s.
    VectorFloat2,
    /// Three `Int`s.
    VectorInt3,
    /// Three `UInt`s.
    VectorUInt3,
    /// Three `Float`s.
    VectorFloat3,
    /// Four `Int`s.
    VectorInt4,
    /// Four `UInt`s.
    VectorUInt4,
    /// Four `Float`s.
    VectorFloat4,
    /// A length-prefixed run of bytes.
    Blob,
    /// A boolean, stored as a scalar of some width.
    Bool,
    /// A vector of `Bool`s sharing one width.
    VectorBool,
}

impl FlexBufferType {
    /// The six-bit code of this type in the format.
    pub open spec fn spec_code(self) -> u8 {
        match self {
            FlexBufferType::Null => 0,
            FlexBufferType::Int => 1,
            FlexBufferType::UInt => 2,
            FlexBufferType::Float => 3,
            FlexBufferType::Key => 4,
            FlexBufferType::String => 5,
            FlexBufferType::IndirectInt => 6,
            FlexBufferType::IndirectUInt => 7,
            FlexBufferType::IndirectFloat => 8,
            FlexBufferType::KeyValueMap => 9,
            FlexBufferType::Vector => 10,
            FlexBufferType::VectorInt => 11,
            FlexBufferType::VectorUInt => 12,
            FlexBufferType::VectorFloat => 13,
            FlexBufferType::VectorKey => 14,
            FlexBufferType::VectorString => 15,
            FlexBufferType::VectorInt2 => 16,
            FlexBufferType::VectorUInt2 => 17,
            FlexBufferType::VectorFloat2 => 18,
            FlexBufferType::VectorInt3 => 19,
            FlexBufferType::VectorUInt3 => 20,
            FlexBufferType::VectorFloat3 => 21,
            FlexBufferType::VectorInt4 => 22,
            FlexBufferType::VectorUInt4 => 23,
            FlexBufferType::VectorFloat4 => 24,
            FlexBufferType::Blob => 25,
            FlexBufferType::Bool => 26,
            FlexBufferType::VectorBool => 36,
        }
    }

    /// The type whose code is `code`, if there is one.
    pub open spec fn spec_from_code(code: u8) -> Option<FlexBufferType> {
        if code == 0 {
            Some(FlexBufferType::Null)
        } else if code == 1 {
            Some(FlexBufferType::Int)
        } else if code == 2 {
            Some(FlexBufferType::UInt)
        } else if code == 3 {
            Some(FlexBufferType::Float)
        } else if code == 4 {
            Some(FlexBufferType::Key)
        } else if code == 5 {
            Some(FlexBufferType::String)
        } else if code == 6 {
            Some(FlexBufferType::IndirectInt)
        } else if code == 7 {
            Some(FlexBufferType::IndirectUInt)
        } else if code == 8 {
            Some(FlexBufferType::IndirectFloat)
        } else if code == 9 {
            Some(FlexBufferType::KeyValueMap)
        } else if code == 10 {
            Some(FlexBufferType::Vector)
        } else if code == 11 {
            Some(FlexBufferType::VectorInt)
        } else if code == 12 {
            Some(FlexBufferType::VectorUInt)
        } else if code == 13 {
            Some(FlexBufferType::VectorFloat)
        } else if code == 14 {
            Some(FlexBufferType::VectorKey)
        } else if code == 15 {
            Some(FlexBufferType::VectorString)
        } else if code == 16 {
            Some(FlexBufferType::VectorInt2)
        } else if code == 17 {
            Some(FlexBufferType::VectorUInt2)
        } else if code == 18 {
            Some(FlexBufferType::VectorFloat2)
        } else if code == 19 {
            Some(FlexBufferType::VectorInt3)
        } else if code == 20 {
            Some(FlexBufferType::VectorUInt3)
        } else if code == 21 {
            Some(FlexBufferType::VectorFloat3)
        } else if code == 22 {
            Some(FlexBufferType::VectorInt4)
        } else if code == 23 {
            Some(FlexBufferType::VectorUInt4)
        } else if code == 24 {
            Some(FlexBufferType::VectorFloat4)
        } else if code == 25 {
            Some(FlexBufferType::Blob)
        } else if code == 26 {
            Some(FlexBufferType::Bool)
        } else if code == 36 {
            Some(FlexBufferType::VectorBool)
        } else {
            None
        }
    }

    /// Stored inline in its parent, rather than by offset.
    pub open spec fn spec_is_inline(self) -> bool {
        match self {
            FlexBufferType::Null | FlexBufferType::Int | FlexBufferType::UInt
            | FlexBufferType::Float | FlexBufferType::Bool => true,
            _ => false,
        }
    }

    /// Stored by offset from its parent.
    pub open spec fn spec_is_reference(self) -> bool {
        !self.spec_is_inline()
    }

    /// A map, a vector, a typed vector or a fixed length typed vector.
    pub open spec fn spec_is_vector(self) -> bool {
        (9 <= self.spec_code() && self.spec_code() < 25) || self == FlexBufferType::VectorBool
    }

    /// The number of elements of a fixed length typed vector.
    pub open spec fn spec_fixed_length_vector_length(self) -> Option<usize> {
        match self {
            FlexBufferType::VectorInt2 | FlexBufferType::VectorUInt2
            | FlexBufferType::VectorFloat2 => Some(2),
            FlexBufferType::VectorInt3 | FlexBufferType::VectorUInt3
            | FlexBufferType::VectorFloat3 => Some(3),
            FlexBufferType::VectorInt4 | FlexBufferType::VectorUInt4
            | FlexBufferType::VectorFloat4 => Some(4),
            _ => None,
        }
    }

    /// The binary format stores a length just before the value's address.
    pub open spec fn spec_has_length_slot(self) -> bool {
        (self.spec_fixed_length_vector_length().is_none() && self.spec_is_vector())
            || self == FlexBufferType::String || self == FlexBufferType::Blob
    }

    /// The type of the elements of a typed vector.
    pub open spec fn spec_typed_vector_type(self) -> Option<FlexBufferType> {
        match self {
            FlexBufferType::VectorInt | FlexBufferType::VectorInt2 | FlexBufferType::VectorInt3
            | FlexBufferType::VectorInt4 => Some(FlexBufferType::Int),
            FlexBufferType::VectorUInt | FlexBufferType::VectorUInt2
            | FlexBufferType::VectorUInt3 | FlexBufferType::VectorUInt4 => Some(
                FlexBufferType::UInt,
            ),
            FlexBufferType::VectorFloat | FlexBufferType::VectorFloat2
            | FlexBufferType::VectorFloat3 | FlexBufferType::VectorFloat4 => Some(
                FlexBufferType::Float,
            ),
            FlexBufferType::VectorKey | FlexBufferType::VectorString => Some(FlexBufferType::Key),
            FlexBufferType::VectorBool => Some(FlexBufferType::Bool),
            _ => None,
        }
    }

    /// The direct type that an indirect type refers to.
    pub open spec fn spec_to_direct(self) -> Option<FlexBufferType> {
        match self {
            FlexBufferType::IndirectInt => Some(FlexBufferType::Int),
            FlexBufferType::IndirectUInt => Some(FlexBufferType::UInt),
            FlexBufferType::IndirectFloat => Some(FlexBufferType::Float),
            _ => None,
        }
    }

    /// Returns the six-bit code of this type.
    pub fn to_u8(self) -> (code: u8)
        ensures
            code == self.spec_code(),
    {
        match self {
            FlexBufferType::Null => 0,
            FlexBufferType::Int => 1,
            FlexBufferType::UInt => 2,
            FlexBufferType::Float => 3,
            FlexBufferType::Key => 4,
            FlexBufferType::String => 5,
            FlexBufferType::IndirectInt => 6,
            FlexBufferType::IndirectUInt => 7,
            FlexBufferType::IndirectFloat => 8,
            FlexBufferType::KeyValueMap => 9,
            FlexBufferType::Vector => 10,
            FlexBufferType::VectorInt => 11,
            FlexBufferType::VectorUInt => 12,
            FlexBufferType::VectorFloat => 13,
            FlexBufferType::VectorKey => 14,
            FlexBufferType::VectorString => 15,
            FlexBufferType::VectorInt2 => 16,
            FlexBufferType::VectorUInt2 => 17,
            FlexBufferType::VectorFloat2 => 18,
            FlexBufferType::VectorInt3 => 19,
            FlexBufferType::VectorUInt3 => 20,
            FlexBufferType::VectorFloat3 => 21,
            FlexBufferType::VectorInt4 => 22,
            FlexBufferType::VectorUInt4 => 23,
            FlexBufferType::VectorFloat4 => 24,
            FlexBufferType::Blob => 25,
            FlexBufferType::Bool => 26,
            FlexBufferType::VectorBool => 36,
        }
    }

    /// Returns the type whose code is `code`, or `None` where no type has it.
    pub fn from_u8(code: u8) -> (t: Option<FlexBufferType>)
        ensures
            t == FlexBufferType::spec_from_code(code),
    {
        match code {
            0 => Some(FlexBufferType::Null),
            1 => Some(FlexBufferType::Int),
            2 => Some(FlexBufferType::UInt),
            3 => Some(FlexBufferType::Float),
            4 => Some(FlexBufferType::Key),
            5 => Some(FlexBufferType::String),
            6 => Some(FlexBufferType::IndirectInt),
            7 => Some(FlexBufferType::IndirectUInt),
            8 => Some(FlexBufferType::IndirectFloat),
            9 => Some(FlexBufferType::KeyValueMap),
            10 => Some(FlexBufferType::Vector),
            11 => Some(FlexBufferType::VectorInt),
            12 => Some(FlexBufferType::VectorUInt),
            13 => Some(FlexBufferType::VectorFloat),
            14 => Some(FlexBufferType::VectorKey),
            15 => Some(FlexBufferType::VectorString),
            16 => Some(FlexBufferType::VectorInt2),
            17 => Some(FlexBufferType::VectorUInt2),
            18 => Some(FlexBufferType::VectorFloat2),
            19 => Some(FlexBufferType::VectorInt3),
            20 => Some(FlexBufferType::VectorUInt3),
            21 => Some(FlexBufferType::VectorFloat3),
            22 => Some(FlexBufferType::VectorInt4),
            23 => Some(FlexBufferType::VectorUInt4),
            24 => Some(FlexBufferType::VectorFloat4),
            25 => Some(FlexBufferType::Blob),
            26 => Some(FlexBufferType::Bool),
            36 => Some(FlexBufferType::VectorBool),
            _ => None,
        }
    }

    /// Returns true for the types stored inline: null, integers, floats and
    /// booleans.
    pub fn is_inline(self) -> (b: bool)
        ensures
            b == self.spec_is_inline(),
    {
        match self {
            FlexBufferType::Null | FlexBufferType::Int | FlexBufferType::UInt
            | FlexBufferType::Float | FlexBufferType::Bool => true,
            _ => false,
        }
    }

    /// Returns true for the types stored by offset.
    pub fn is_reference(self) -> (b: bool)
        ensures
            b == self.spec_is_reference(),
    {
        !self.is_inline()
    }

    /// Returns true for maps, vectors, typed vectors and fixed length typed
    /// vectors.
    pub fn is_vector(self) -> (b: bool)
        ensures
            b == self.spec_is_vector(),
    {
        let d = self.to_u8();
        (9 <= d && d < 25) || self == FlexBufferType::VectorBool
    }

    /// Returns the length of a fixed length typed vector type.
    pub fn fixed_length_vector_length(self) -> (n: Option<usize>)
        ensures
            n == self.spec_fixed_length_vector_length(),
    {
        match self {
            FlexBufferType::VectorInt2 | FlexBufferType::VectorUInt2
            | FlexBufferType::VectorFloat2 => Some(2),
            FlexBufferType::VectorInt3 | FlexBufferType::VectorUInt3
            | FlexBufferType::VectorFloat3 => Some(3),
            FlexBufferType::VectorInt4 | FlexBufferType::VectorUInt4
            | FlexBufferType::VectorFloat4 => Some(4),
            _ => None,
        }
    }

    /// Returns true if called on a fixed length typed vector.
    pub fn is_fixed_length_vector(self) -> (b: bool)
        ensures
            b == self.spec_fixed_length_vector_length().is_some(),
    {
        self.fixed_length_vector_length().is_some()
    }

    /// True iff the binary format stores the length: for blobs, strings, maps
    /// and vectors of variable length.
    pub fn has_length_slot(self) -> (b: bool)
        ensures
            b == self.spec_has_length_slot(),
    {
        (!self.is_fixed_length_vector() && self.is_vector()) || self == FlexBufferType::String
            || self == FlexBufferType::Blob
    }

    /// If called on a typed vector, returns the type of its elements.
    pub fn typed_vector_type(self) -> (t: Option<FlexBufferType>)
        ensures
            t == self.spec_typed_vector_type(),
    {
        match self {
            FlexBufferType::VectorInt | FlexBufferType::VectorInt2 | FlexBufferType::VectorInt3
            | FlexBufferType::VectorInt4 => Some(FlexBufferType::Int),
            FlexBufferType::VectorUInt | FlexBufferType::VectorUInt2
            | FlexBufferType::VectorUInt3 | FlexBufferType::VectorUInt4 => Some(
                FlexBufferType::UInt,
            ),
            FlexBufferType::VectorFloat | FlexBufferType::VectorFloat2
            | FlexBufferType::VectorFloat3 | FlexBufferType::VectorFloat4 => Some(
                FlexBufferType::Float,
            ),
            FlexBufferType::VectorKey | FlexBufferType::VectorString => Some(FlexBufferType::Key),
            FlexBufferType::VectorBool => Some(FlexBufferType::Bool),
            _ => None,
        }
    }

    /// Returns the direct type that an indirect type refers to.
    pub fn to_direct(self) -> (t: Option<FlexBufferType>)
        ensures
            t == self.spec_to_direct(),
    {
        match self {
            FlexBufferType::IndirectInt => Some(FlexBufferType::Int),
            FlexBufferType::IndirectUInt => Some(FlexBufferType::UInt),
            FlexBufferType::IndirectFloat => Some(FlexBufferType::Float),
            _ => None,
        }
    }
}

impl Default for FlexBufferType {
    fn default() -> (t: Self)
        ensures
            t == FlexBufferType::Null,
    {
        FlexBufferType::Null
    }
}

/// Each type is found again from its code, and each code that names a type
/// is the code of the type it names.
pub proof fn lemma_type_code_roundtrip(t: FlexBufferType, code: u8)
    ensures
        FlexBufferType::spec_from_code(t.spec_code()) == Some(t),
        t.spec_code() < 64,
        FlexBufferType::spec_from_code(code) matches Some(u) ==> u.spec_code() == code,
{
}

} // verus!

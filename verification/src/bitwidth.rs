use vstd::prelude::*;

verus! {

/// The width, in bytes, of a scalar or of an offset in a flexbuffer.
#[derive(Clone, Copy, Debug, PartialEq, Eq, Structural, PartialOrd, Ord, Hash)]
pub enum BitWidth {
    W8,
    W16,
    W32,
    W64,
}

impl BitWidth {
    /// The number of bytes that a value of this width occupies.
    pub open spec fn spec_n_bytes(self) -> int {
        match self {
            BitWidth::W8 => 1,
            BitWidth::W16 => 2,
            BitWidth::W32 => 4,
            BitWidth::W64 => 8,
        }
    }

    /// The two-bit code of this width in a packed type byte.
    pub open spec fn spec_code(self) -> u8 {
        match self {
            BitWidth::W8 => 0,
            BitWidth::W16 => 1,
            BitWidth::W32 => 2,
            BitWidth::W64 => 3,
        }
    }

    /// The width that occupies `n` bytes, if there is one.
    pub open spec fn spec_from_nbytes(n: int) -> Option<BitWidth> {
        if n == 1 {
            Some(BitWidth::W8)
        } else if n == 2 {
            Some(BitWidth::W16)
        } else if n == 4 {
            Some(BitWidth::W32)
        } else if n == 8 {
            Some(BitWidth::W64)
        } else {
            None
        }
    }

    /// The width whose two-bit code is `code`, if there is one.
    pub open spec fn spec_from_code(code: u8) -> Option<BitWidth> {
        if code == 0 {
            Some(BitWidth::W8)
        } else if code == 1 {
            Some(BitWidth::W16)
        } else if code == 2 {
            Some(BitWidth::W32)
        } else if code == 3 {
            Some(BitWidth::W64)
        } else {
            None
        }
    }

    /// Returns the number of bytes that a value of this width occupies.
    pub fn n_bytes(self) -> (n: usize)
        ensures
            n == self.spec_n_bytes(),
    {
        match self {
            BitWidth::W8 => 1,
            BitWidth::W16 => 2,
            BitWidth::W32 => 4,
            BitWidth::W64 => 8,
        }
    }

    /// Returns the width that occupies `n` bytes, or `None` where `n` is not
    /// 1, 2, 4 or 8.
    pub fn from_nbytes(n: usize) -> (w: Option<BitWidth>)
        ensures
            w == BitWidth::spec_from_nbytes(n as int),
    {
        match n {
            1 => Some(BitWidth::W8),
            2 => Some(BitWidth::W16),
            4 => Some(BitWidth::W32),
            8 => Some(BitWidth::W64),
            _ => None,
        }
    }

    /// Returns the two-bit code of this width.
    pub fn to_u8(self) -> (code: u8)
        ensures
            code == self.spec_code(),
    {
        match self {
            BitWidth::W8 => 0,
            BitWidth::W16 => 1,
            BitWidth::W32 => 2,
            BitWidth::W64 => 3,
        }
    }

    /// Returns the width whose two-bit code is `code`, or `None` where `code`
    /// is above 3.
    pub fn from_u8(code: u8) -> (w: Option<BitWidth>)
        ensures
            w == BitWidth::spec_from_code(code),
    {
        match code {
            0 => Some(BitWidth::W8),
            1 => Some(BitWidth::W16),
            2 => Some(BitWidth::W32),
            3 => Some(BitWidth::W64),
            _ => None,
        }
    }
}

impl Default for BitWidth {
    fn default() -> (w: Self)
        ensures
            w == BitWidth::W8,
    {
        BitWidth::W8
    }
}

/// A width is found again from its number of bytes and from its code.
pub proof fn lemma_bitwidth_roundtrip(w: BitWidth)
    ensures
        BitWidth::spec_from_nbytes(w.spec_n_bytes()) == Some(w),
        BitWidth::spec_from_code(w.spec_code()) == Some(w),
        1 <= w.spec_n_bytes() <= 8,
{
}

} // verus!

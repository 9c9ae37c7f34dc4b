use super::cursor::{lemma_le_value_one, le_read_i16, le_read_i32, le_read_i64, le_read_u16, le_read_u32, le_read_u64};
use super::{le_value, signed_value, Error, Reader, ReaderView};
use crate::bitwidth::BitWidth;
use crate::flexbuffer_type::FlexBufferType;
use vstd::prelude::*;
use vstd::slice::slice_subrange;

verus! {

/// The integer types whose little-endian encodings fill typed vectors, each
/// with the typed vector type and the width that hold it.
pub trait ReadLE: super::sealed::Sealed + Sized {
    /// The typed vector type whose elements have this type.
    spec fn spec_vector_type() -> FlexBufferType;

    /// The width of one element.
    spec fn spec_width() -> BitWidth;

    /// The value that the little-endian bytes `b` encode.
    spec fn spec_from_le(b: Seq<u8>) -> Self;

    fn vector_type() -> (t: FlexBufferType)
        ensures
            t == Self::spec_vector_type(),
    ;

    fn width() -> (w: BitWidth)
        ensures
            w == Self::spec_width(),
    ;

    /// Decodes `b` where it has the width of one element.
    fn read_le(b: &[u8]) -> (v: Option<Self>)
        ensures
            v == (if b@.len() == Self::spec_width().spec_n_bytes() {
                Some(Self::spec_from_le(b@))
            } else {
                None
            }),
    ;
}

impl ReadLE for u8 {
    open spec fn spec_vector_type() -> FlexBufferType {
        FlexBufferType::VectorUInt
    }

    open spec fn spec_width() -> BitWidth {
        BitWidth::W8
    }

    open spec fn spec_from_le(b: Seq<u8>) -> u8 {
        le_value(b) as u8
    }

    fn vector_type() -> (t: FlexBufferType) {
        FlexBufferType::VectorUInt
    }

    fn width() -> (w: BitWidth) {
        BitWidth::W8
    }

    fn read_le(b: &[u8]) -> (v: Option<u8>) {
        if b.len() != 1 {
            return None;
        }
        proof {
            lemma_le_value_one(b@);
        }
        Some(b[0])
    }
}

impl ReadLE for u16 {
    open spec fn spec_vector_type() -> FlexBufferType {
        FlexBufferType::VectorUInt
    }

    open spec fn spec_width() -> BitWidth {
        BitWidth::W16
    }

    open spec fn spec_from_le(b: Seq<u8>) -> u16 {
        le_value(b) as u16
    }

    fn vector_type() -> (t: FlexBufferType) {
        FlexBufferType::VectorUInt
    }

    fn width() -> (w: BitWidth) {
        BitWidth::W16
    }

    fn read_le(b: &[u8]) -> (v: Option<u16>) {
        if b.len() != 2 {
            return None;
        }
        assert(b@.subrange(0, 2) =~= b@);
        Some(le_read_u16(b))
    }
}

impl ReadLE for u32 {
    open spec fn spec_vector_type() -> FlexBufferType {
        FlexBufferType::VectorUInt
    }

    open spec fn spec_width() -> BitWidth {
        BitWidth::W32
    }

    open spec fn spec_from_le(b: Seq<u8>) -> u32 {
        le_value(b) as u32
    }

    fn vector_type() -> (t: FlexBufferType) {
        FlexBufferType::VectorUInt
    }

    fn width() -> (w: BitWidth) {
        BitWidth::W32
    }

    fn read_le(b: &[u8]) -> (v: Option<u32>) {
        if b.len() != 4 {
            return None;
        }
        assert(b@.subrange(0, 4) =~= b@);
        Some(le_read_u32(b))
    }
}

impl ReadLE for u64 {
    open spec fn spec_vector_type() -> FlexBufferType {
        FlexBufferType::VectorUInt
    }

    open spec fn spec_width() -> BitWidth {
        BitWidth::W64
    }

    open spec fn spec_from_le(b: Seq<u8>) -> u64 {
        le_value(b) as u64
    }

    fn vector_type() -> (t: FlexBufferType) {
        FlexBufferType::VectorUInt
    }

    fn width() -> (w: BitWidth) {
        BitWidth::W64
    }

    fn read_le(b: &[u8]) -> (v: Option<u64>) {
        if b.len() != 8 {
            return None;
        }
        assert(b@.subrange(0, 8) =~= b@);
        Some(le_read_u64(b))
    }
}

impl ReadLE for i8 {
    open spec fn spec_vector_type() -> FlexBufferType {
        FlexBufferType::VectorInt
    }

    open spec fn spec_width() -> BitWidth {
        BitWidth::W8
    }

    open spec fn spec_from_le(b: Seq<u8>) -> i8 {
        signed_value(le_value(b), 8) as i8
    }

    fn vector_type() -> (t: FlexBufferType) {
        FlexBufferType::VectorInt
    }

    fn width() -> (w: BitWidth) {
        BitWidth::W8
    }

    fn read_le(b: &[u8]) -> (v: Option<i8>) {
        if b.len() != 1 {
            return None;
        }
        proof {
            lemma_le_value_one(b@);
            reveal_with_fuel(super::cursor::pow2, 9);
        }
        let byte = b[0];
        let v = byte as i8;
        assert(v as int == signed_value(byte as nat, 8)) by (bit_vector)
            requires
                v == byte as i8,
        ;
        Some(v)
    }
}

impl ReadLE for i16 {
    open spec fn spec_vector_type() -> FlexBufferType {
        FlexBufferType::VectorInt
    }

    open spec fn spec_width() -> BitWidth {
        BitWidth::W16
    }

    open spec fn spec_from_le(b: Seq<u8>) -> i16 {
        signed_value(le_value(b), 16) as i16
    }

    fn vector_type() -> (t: FlexBufferType) {
        FlexBufferType::VectorInt
    }

    fn width() -> (w: BitWidth) {
        BitWidth::W16
    }

    fn read_le(b: &[u8]) -> (v: Option<i16>) {
        if b.len() != 2 {
            return None;
        }
        assert(b@.subrange(0, 2) =~= b@);
        Some(le_read_i16(b))
    }
}

impl ReadLE for i32 {
    open spec fn spec_vector_type() -> FlexBufferType {
        FlexBufferType::VectorInt
    }

    open spec fn spec_width() -> BitWidth {
        BitWidth::W32
    }

    open spec fn spec_from_le(b: Seq<u8>) -> i32 {
        signed_value(le_value(b), 32) as i32
    }

    fn vector_type() -> (t: FlexBufferType) {
        FlexBufferType::VectorInt
    }

    fn width() -> (w: BitWidth) {
        BitWidth::W32
    }

    fn read_le(b: &[u8]) -> (v: Option<i32>) {
        if b.len() != 4 {
            return None;
        }
        assert(b@.subrange(0, 4) =~= b@);
        Some(le_read_i32(b))
    }
}

impl ReadLE for i64 {
    open spec fn spec_vector_type() -> FlexBufferType {
        FlexBufferType::VectorInt
    }

    open spec fn spec_width() -> BitWidth {
        BitWidth::W64
    }

    open spec fn spec_from_le(b: Seq<u8>) -> i64 {
        signed_value(le_value(b), 64) as i64
    }

    fn vector_type() -> (t: FlexBufferType) {
        FlexBufferType::VectorInt
    }

    fn width() -> (w: BitWidth) {
        BitWidth::W64
    }

    fn read_le(b: &[u8]) -> (v: Option<i64>) {
        if b.len() != 8 {
            return None;
        }
        assert(b@.subrange(0, 8) =~= b@);
        Some(le_read_i64(b))
    }
}

impl ReaderView {
    /// The bytes of a typed vector whose elements have type `T`: its elements'
    /// type and byte width must be those of `T`.
    pub open spec fn slice_bytes<T: ReadLE>(self) -> Result<Seq<u8>, Error> {
        let vt = T::spec_vector_type();
        let w = T::spec_width();
        if self.ty.spec_typed_vector_type() != vt.spec_typed_vector_type() {
            Err(Error::UnexpectedFlexbufferType { expected: vt, actual: self.ty })
        } else if self.width != w {
            Err(Error::UnexpectedBitWidth { expected: w, actual: self.width })
        } else {
            match self.try_length() {
                Err(e) => Err(e),
                Ok(n) => if n * w.spec_n_bytes() > usize::MAX {
                    Err(Error::FlexbufferOutOfBounds)
                } else {
                    self.cursor.bytes(n * w.spec_n_bytes())
                },
            }
        }
    }
}

/// `v` holds the elements that the bytes `b` encode, `n` bytes each.
pub open spec fn decodes_to<T: ReadLE>(v: Seq<T>, b: Seq<u8>, n: int) -> bool {
    &&& v.len() * n == b.len()
    &&& forall|i: int| 0 <= i < v.len() ==> v[i] == T::spec_from_le(#[trigger] b.subrange(i * n, i * n + n))
}

/// Two optional types are the same.
fn same_type(a: Option<FlexBufferType>, b: Option<FlexBufferType>) -> (r: bool)
    ensures
        r == (a == b),
{
    match (a, b) {
        (Some(x), Some(y)) => x == y,
        (None, None) => true,
        _ => false,
    }
}

impl<'a> Reader<'a> {
    /// Reads the elements of a typed vector of `T`s. Returns Err if the type or the bitwidth
    /// does not match `T`, or the elements do not lie in the buffer.
    pub fn get_slice<T: ReadLE>(&self) -> (r: Result<Vec<T>, Error>)
        ensures
            match r {
                Ok(v) => self@.slice_bytes::<T>() matches Ok(b) && decodes_to(
                    v@,
                    b,
                    T::spec_width().spec_n_bytes(),
                ),
                Err(e) => self@.slice_bytes::<T>() == Err::<Seq<u8>, Error>(e),
            },
    {
        let vt = T::vector_type();
        if !same_type(self.flexbuffer_type().typed_vector_type(), vt.typed_vector_type()) {
            self.expect_type(vt)?;
        }
        let w = T::width();
        if self.bitwidth().n_bytes() != w.n_bytes() {
            self.expect_bw(w)?;
        }
        proof {
            crate::bitwidth::lemma_bitwidth_roundtrip(w);
            crate::bitwidth::lemma_bitwidth_roundtrip(self@.width);
        }
        let n = w.n_bytes();
        let len = self.try_length()?;
        let byte_len = match len.checked_mul(n) {
            Some(b) => b,
            None => return Err(Error::FlexbufferOutOfBounds),
        };
        let bytes = self.cursor().bytes(byte_len)?;
        let mut out: Vec<T> = Vec::new();
        let mut i: usize = 0;
        while i < len
            invariant
                i <= len,
                bytes@.len() == len * n,
                len * n <= usize::MAX,
                1 <= n <= 8,
                n == T::spec_width().spec_n_bytes(),
                out@.len() == i,
                forall|j: int|
                    0 <= j < i ==> out@[j] == T::spec_from_le(
                        #[trigger] bytes@.subrange(j * n, j * n + n),
                    ),
            decreases len - i,
        {
            assert(i * n + n <= len * n) by (nonlinear_arith)
                requires
                    i < len,
                    n >= 1,
            ;
            let start = i * n;
            let elem = match T::read_le(slice_subrange(bytes, start, start + n)) {
                Some(e) => e,
                None => return Err(Error::FlexbufferOutOfBounds),
            };
            out.push(elem);
            i = i + 1;
        }
        Ok(out)
    }
}

} // verus!

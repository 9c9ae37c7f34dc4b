use super::Error;
use crate::bitwidth::BitWidth;
use byteorder::{ByteOrder, LittleEndian};
use std::cmp::Ordering;
use vstd::prelude::*;
use vstd::array::array_as_slice;
use vstd::slice::slice_subrange;

verus! {

broadcast use {vstd::slice::group_slice_axioms, vstd::array::group_array_axioms};

/// The value of `s` read as an unsigned little-endian integer.
pub open spec fn le_value(s: Seq<u8>) -> nat
    decreases s.len(),
{
    if s.len() == 0 {
        0
    } else {
        s[0] as nat + 256 * le_value(s.drop_first())
    }
}

/// The two's complement value of the `bits`-bit pattern `v`.
pub open spec fn signed_value(v: nat, bits: nat) -> int {
    if v >= pow2(bits) / 2 {
        v - pow2(bits)
    } else {
        v as int
    }
}

/// `2` to the power `n`.
pub open spec fn pow2(n: nat) -> nat
    decreases n,
{
    if n == 0 {
        1
    } else {
        2 * pow2((n - 1) as nat)
    }
}

/// The lexicographic order of two byte strings as a sign: negative where `a`
/// comes first, zero where they are equal, positive where `b` comes first.
pub open spec fn lex_sign(a: Seq<u8>, b: Seq<u8>) -> int
    decreases a.len(),
{
    if a.len() == 0 {
        if b.len() == 0 {
            0
        } else {
            -1
        }
    } else if b.len() == 0 {
        1
    } else if a[0] < b[0] {
        -1
    } else if a[0] > b[0] {
        1
    } else {
        lex_sign(a.drop_first(), b.drop_first())
    }
}

/// The `Ordering` that a sign stands for.
pub open spec fn order_of(sign: int) -> Ordering {
    if sign < 0 {
        Ordering::Less
    } else if sign == 0 {
        Ordering::Equal
    } else {
        Ordering::Greater
    }
}

/// The `Ordering` that a sign stands for.
pub open spec fn order_of_i8(sign: i8) -> Ordering {
    if sign < 0 {
        Ordering::Less
    } else if sign == 0 {
        Ordering::Equal
    } else {
        Ordering::Greater
    }
}

/// The lexicographic order of two byte strings, as `Iterator::cmp` gives it.
pub open spec fn lex_cmp(a: Seq<u8>, b: Seq<u8>) -> Ordering {
    order_of(lex_sign(a, b))
}

/// `n` is the distance from `start` to the first zero byte of `s` at or after
/// `start`.
pub open spec fn is_nul_distance(s: Seq<u8>, start: int, n: int) -> bool {
    &&& 0 <= n
    &&& 0 <= start
    &&& start + n < s.len()
    &&& s[start + n] == 0
    &&& forall|j: int| start <= j < start + n ==> s[j] != 0
}

/// A position in a buffer: the bytes of the buffer and an address in it.
pub ghost struct CursorView {
    pub bytes: Seq<u8>,
    pub addr: int,
}

impl CursorView {
    /// A cursor at `addr`, which must not lie past the end of the buffer.
    pub open spec fn at_addr(bytes: Seq<u8>, addr: int) -> Result<CursorView, Error> {
        if 0 <= addr <= bytes.len() {
            Ok(CursorView { bytes, addr })
        } else {
            Err(Error::FlexbufferOutOfBounds)
        }
    }

    pub open spec fn add(self, offset: int) -> Result<CursorView, Error> {
        CursorView::at_addr(self.bytes, self.addr + offset)
    }

    pub open spec fn sub(self, offset: int) -> Result<CursorView, Error> {
        CursorView::at_addr(self.bytes, self.addr - offset)
    }

    /// The cursor `index` strides of `stride` bytes further on.
    pub open spec fn index(self, index: int, stride: int) -> Result<CursorView, Error> {
        self.add(index * stride)
    }

    /// The `len` bytes from the cursor on, where they all lie in the buffer.
    pub open spec fn bytes(self, len: int) -> Result<Seq<u8>, Error> {
        if 0 <= self.addr && self.addr + len <= self.bytes.len() {
            Ok(self.bytes.subrange(self.addr, self.addr + len))
        } else {
            Err(Error::FlexbufferOutOfBounds)
        }
    }

    pub open spec fn read_u8(self) -> Result<u8, Error> {
        if 0 <= self.addr < self.bytes.len() {
            Ok(self.bytes[self.addr])
        } else {
            Err(Error::FlexbufferOutOfBounds)
        }
    }

    /// The number of bytes before the first zero byte from the cursor on.
    pub open spec fn nul_terminated_len(self) -> Result<usize, Error> {
        if exists|n: int| is_nul_distance(self.bytes, self.addr, n) {
            Ok((choose|n: int| is_nul_distance(self.bytes, self.addr, n)) as usize)
        } else {
            Err(Error::FlexbufferOutOfBounds)
        }
    }

    /// The bytes before the first zero byte from the cursor on.
    pub open spec fn nul_terminated_bytes(self) -> Result<Seq<u8>, Error> {
        match self.nul_terminated_len() {
            Ok(len) => self.bytes(len as int),
            Err(e) => Err(e),
        }
    }

    /// How the bytes before the first zero byte compare with `value`.
    pub open spec fn compare_nul_terminated(self, value: Seq<u8>) -> Result<Ordering, Error> {
        match self.nul_terminated_bytes() {
            Ok(key) => Ok(lex_cmp(key, value)),
            Err(e) => Err(e),
        }
    }

    /// The unsigned little-endian integer of width `w` at the cursor.
    pub open spec fn read_u64(self, w: BitWidth) -> Result<u64, Error> {
        match self.bytes(w.spec_n_bytes()) {
            Ok(s) => Ok(le_value(s) as u64),
            Err(e) => Err(e),
        }
    }

    /// The signed little-endian integer of width `w` at the cursor.
    pub open spec fn read_i64(self, w: BitWidth) -> Result<i64, Error> {
        match self.bytes(w.spec_n_bytes()) {
            Ok(s) => Ok(signed_value(le_value(s), (8 * w.spec_n_bytes()) as nat) as i64),
            Err(e) => Err(e),
        }
    }

    /// The unsigned integer of width `w` at the cursor, where it fits in a
    /// `usize`.
    pub open spec fn read_usize(self, w: BitWidth) -> Result<usize, Error> {
        match self.read_u64(w) {
            Ok(v) => if v <= usize::MAX {
                Ok(v as usize)
            } else {
                Err(Error::ReadUsizeOverflowed)
            },
            Err(e) => Err(e),
        }
    }

    /// The cursor that the offset of width `w` at this cursor points back to.
    pub open spec fn deref_offset(self, w: BitWidth) -> Result<CursorView, Error> {
        match self.read_usize(w) {
            Ok(off) => self.sub(off as int),
            Err(e) => Err(e),
        }
    }
}

/// An opaque, bounds-checked position in a FlexBuffer.
#[derive(Clone, Copy)]
pub(crate) struct BufferAddress(pub(crate) usize);

/// Owns a buffer handle and the only address from which reader code may navigate.
pub(crate) struct BufferCursor<'a> {
    pub(crate) buffer: &'a [u8],
    pub(crate) address: BufferAddress,
}

impl<'a> View for BufferCursor<'a> {
    type V = CursorView;

    closed spec fn view(&self) -> CursorView {
        CursorView { bytes: self.buffer@, addr: self.address.0 as int }
    }
}

/// The view of a cursor that an operation gives back, or its error.
pub open spec fn cursor_result<'a>(r: Result<BufferCursor<'a>, Error>) -> Result<CursorView, Error> {
    match r {
        Ok(c) => Ok(c@),
        Err(e) => Err(e),
    }
}

/// The view of a run of bytes that an operation gives back, or its error.
pub open spec fn bytes_result<'a>(r: Result<&'a [u8], Error>) -> Result<Seq<u8>, Error> {
    match r {
        Ok(b) => Ok(b@),
        Err(e) => Err(e),
    }
}

/// Calls `byteorder::LittleEndian::read_u16`, which reads the first two bytes
/// of `buf` as a little-endian `u16` and panics on fewer than two bytes.
#[verifier::external_body]
pub(crate) fn le_read_u16(buf: &[u8]) -> (v: u16)
    requires
        buf@.len() >= 2,
    ensures
        v as nat == le_value(buf@.subrange(0, 2)),
{
    LittleEndian::read_u16(buf)
}

/// Calls `byteorder::LittleEndian::read_u32`, which reads the first four bytes
/// of `buf` as a little-endian `u32` and panics on fewer than four bytes.
#[verifier::external_body]
pub(crate) fn le_read_u32(buf: &[u8]) -> (v: u32)
    requires
        buf@.len() >= 4,
    ensures
        v as nat == le_value(buf@.subrange(0, 4)),
{
    LittleEndian::read_u32(buf)
}

/// Calls `byteorder::LittleEndian::read_u64`, which reads the first eight bytes
/// of `buf` as a little-endian `u64` and panics on fewer than eight bytes.
#[verifier::external_body]
pub(crate) fn le_read_u64(buf: &[u8]) -> (v: u64)
    requires
        buf@.len() >= 8,
    ensures
        v as nat == le_value(buf@.subrange(0, 8)),
{
    LittleEndian::read_u64(buf)
}

/// Calls `byteorder::LittleEndian::read_i16`, which reads the first two bytes
/// of `buf` as a little-endian two's complement `i16` and panics on fewer
/// than two bytes.
#[verifier::external_body]
pub(crate) fn le_read_i16(buf: &[u8]) -> (v: i16)
    requires
        buf@.len() >= 2,
    ensures
        v as int == signed_value(le_value(buf@.subrange(0, 2)), 16),
{
    LittleEndian::read_i16(buf)
}

/// Calls `byteorder::LittleEndian::read_i32`, which reads the first four bytes
/// of `buf` as a little-endian two's complement `i32` and panics on fewer
/// than four bytes.
#[verifier::external_body]
pub(crate) fn le_read_i32(buf: &[u8]) -> (v: i32)
    requires
        buf@.len() >= 4,
    ensures
        v as int == signed_value(le_value(buf@.subrange(0, 4)), 32),
{
    LittleEndian::read_i32(buf)
}

/// Calls `byteorder::LittleEndian::read_i64`, which reads the first eight bytes
/// of `buf` as a little-endian two's complement `i64` and panics on fewer
/// than eight bytes.
#[verifier::external_body]
pub(crate) fn le_read_i64(buf: &[u8]) -> (v: i64)
    requires
        buf@.len() >= 8,
    ensures
        v as int == signed_value(le_value(buf@.subrange(0, 8)), 64),
{
    LittleEndian::read_i64(buf)
}

impl<'a> Clone for BufferCursor<'a> {
    fn clone(&self) -> (c: Self)
        ensures
            c@ == self@,
    {
        Self { buffer: self.buffer, address: self.address }
    }
}

impl<'a> Default for BufferCursor<'a> {
    /// The empty cursor: an empty buffer, at address 0.
    fn default() -> (c: Self)
        ensures
            c@ == (CursorView { bytes: Seq::empty(), addr: 0 }),
    {
        let nothing: &'a [u8; 0] = &[];
        let buffer: &'a [u8] = array_as_slice(nothing);
        assert(buffer@ =~= Seq::<u8>::empty());
        Self { buffer, address: BufferAddress(0) }
    }
}

impl<'a> BufferCursor<'a> {
    pub(crate) fn address(&self) -> (a: BufferAddress)
        ensures
            a.0 == self@.addr,
    {
        self.address
    }

    pub(crate) fn new(buffer: &'a [u8], address: usize) -> (r: Result<Self, Error>)
        ensures
            cursor_result(r) == CursorView::at_addr(buffer@, address as int),
    {
        if address <= buffer.len() {
            Ok(Self { buffer, address: BufferAddress(address) })
        } else {
            Err(Error::FlexbufferOutOfBounds)
        }
    }

    pub(crate) fn at(&self, address: BufferAddress) -> (r: Result<Self, Error>)
        ensures
            cursor_result(r) == CursorView::at_addr(self@.bytes, address.0 as int),
    {
        Self::new(self.buffer, address.0)
    }

    pub(crate) fn buffer(&self) -> (b: &'a [u8])
        ensures
            b@ == self@.bytes,
    {
        self.buffer
    }

    pub(crate) fn add(&self, offset: usize) -> (r: Result<Self, Error>)
        ensures
            cursor_result(r) == self@.add(offset as int),
    {
        match self.address.0.checked_add(offset) {
            Some(address) => Self::new(self.buffer, address),
            None => {
                assert(self.buffer@.len() == self.buffer.len());
                Err(Error::FlexbufferOutOfBounds)
            },
        }
    }

    pub(crate) fn sub(&self, offset: usize) -> (r: Result<Self, Error>)
        ensures
            cursor_result(r) == self@.sub(offset as int),
    {
        match self.address.0.checked_sub(offset) {
            Some(address) => Self::new(self.buffer, address),
            None => Err(Error::FlexbufferOutOfBounds),
        }
    }

    pub(crate) fn index(&self, index: usize, stride: usize) -> (r: Result<Self, Error>)
        ensures
            cursor_result(r) == self@.index(index as int, stride as int),
    {
        match index.checked_mul(stride) {
            Some(offset) => self.add(offset),
            None => {
                assert(self.buffer@.len() == self.buffer.len());
                assert(self@.addr + index * stride > self@.bytes.len()) by (nonlinear_arith)
                    requires
                        index * stride > usize::MAX,
                        self@.addr >= 0,
                        self@.bytes.len() <= usize::MAX,
                ;
                Err(Error::FlexbufferOutOfBounds)
            },
        }
    }

    /// The end of the `len` bytes from the cursor on, where they lie in the
    /// buffer.
    fn range_end(&self, len: usize) -> (r: Result<usize, Error>)
        ensures
            match r {
                Ok(end) => self@.bytes(len as int) is Ok && end == self.address.0 + len,
                Err(e) => self@.bytes(len as int) == Err::<Seq<u8>, Error>(e),
            },
    {
        match self.address.0.checked_add(len) {
            Some(end) => if end <= self.buffer.len() {
                assert(self@.bytes(len as int) is Ok);
                Ok(end)
            } else {
                Err(Error::FlexbufferOutOfBounds)
            },
            None => {
                assert(self.buffer@.len() == self.buffer.len());
                Err(Error::FlexbufferOutOfBounds)
            },
        }
    }

    pub(crate) fn bytes(&self, len: usize) -> (r: Result<&'a [u8], Error>)
        ensures
            bytes_result(r) == self@.bytes(len as int),
    {
        let end = self.range_end(len)?;
        Ok(slice_subrange(self.buffer, self.address.0, end))
    }

    pub(crate) fn read_u8(&self) -> (r: Result<u8, Error>)
        ensures
            r == self@.read_u8(),
    {
        if self.address.0 < self.buffer.len() {
            Ok(self.buffer[self.address.0])
        } else {
            Err(Error::FlexbufferOutOfBounds)
        }
    }

    pub(crate) fn slice(&self, len: usize) -> (r: Result<&'a [u8], Error>)
        ensures
            bytes_result(r) == self@.bytes(len as int),
    {
        self.bytes(len)
    }
}

/// The sign of the lexicographic order of `a` and `b`.
fn compare_bytes(a: &[u8], b: &[u8]) -> (r: i8)
    ensures
        r as int == lex_sign(a@, b@),
{
    let mut i: usize = 0;
    assert(a@.skip(0) =~= a@ && b@.skip(0) =~= b@);
    while i < a.len() && i < b.len()
        invariant
            i <= a@.len(),
            i <= b@.len(),
            lex_sign(a@, b@) == lex_sign(a@.skip(i as int), b@.skip(i as int)),
        decreases a@.len() - i,
    {
        if a[i] != b[i] {
            assert(a@.skip(i as int)[0] == a@[i as int]);
            assert(b@.skip(i as int)[0] == b@[i as int]);
            if a[i] < b[i] {
                return -1;
            } else {
                return 1;
            }
        }
        assert(a@.skip(i as int).drop_first() =~= a@.skip(i + 1));
        assert(b@.skip(i as int).drop_first() =~= b@.skip(i + 1));
        i = i + 1;
    }
    if i == a.len() {
        if i == b.len() {
            assert(a@.skip(i as int).len() == 0 && b@.skip(i as int).len() == 0);
            0
        } else {
            assert(a@.skip(i as int).len() == 0 && b@.skip(i as int).len() > 0);
            -1
        }
    } else {
        assert(a@.skip(i as int).len() > 0 && b@.skip(i as int).len() == 0);
        1
    }
}

/// The `Ordering` that a sign stands for.
fn order_from_sign(sign: i8) -> (o: Ordering)
    ensures
        o == order_of_i8(sign),
{
    if sign < 0 {
        Ordering::Less
    } else if sign == 0 {
        Ordering::Equal
    } else {
        Ordering::Greater
    }
}

/// The distance from `start` to the first zero byte is unique.
pub proof fn lemma_nul_distance_unique(s: Seq<u8>, start: int, n: int, m: int)
    requires
        is_nul_distance(s, start, n),
        is_nul_distance(s, start, m),
    ensures
        n == m,
{
    if n < m {
        assert(s[start + n] != 0);
    } else if m < n {
        assert(s[start + m] != 0);
    }
}

/// The value of `le_value` on a run of one byte.
pub(crate) proof fn lemma_le_value_one(s: Seq<u8>)
    requires
        s.len() == 1,
    ensures
        le_value(s) == s[0] as nat,
{
    assert(s.drop_first().len() == 0);
    assert(le_value(s.drop_first()) == 0);
}

impl<'a> BufferCursor<'a> {
    pub(crate) fn nul_terminated_len(&self) -> (r: Result<usize, Error>)
        ensures
            r == self@.nul_terminated_len(),
    {
        let start = self.address.0;
        if start > self.buffer.len() {
            return Err(Error::FlexbufferOutOfBounds);
        }
        let mut i = start;
        while i < self.buffer.len()
            invariant
                start == self@.addr,
                start <= i <= self.buffer@.len(),
                forall|j: int| start <= j < i ==> self.buffer@[j] != 0,
            decreases self.buffer@.len() - i,
        {
            if self.buffer[i] == 0 {
                proof {
                    let n = (i - start) as int;
                    assert(is_nul_distance(self@.bytes, self@.addr, n));
                    let c = choose|m: int| is_nul_distance(self@.bytes, self@.addr, m);
                    lemma_nul_distance_unique(self@.bytes, self@.addr, n, c);
                }
                return Ok(i - start);
            }
            i = i + 1;
        }
        assert forall|n: int| !is_nul_distance(self@.bytes, self@.addr, n) by {
            if is_nul_distance(self@.bytes, self@.addr, n) {
                assert(self.buffer@[start + n] != 0);
            }
        }
        Err(Error::FlexbufferOutOfBounds)
    }

    /// The bytes before the first zero byte from the cursor on.
    pub(crate) fn nul_terminated_bytes(&self) -> (r: Result<&'a [u8], Error>)
        ensures
            bytes_result(r) == self@.nul_terminated_bytes(),
    {
        let len = self.nul_terminated_len()?;
        self.bytes(len)
    }

    pub(crate) fn compare_nul_terminated(&self, value: &[u8]) -> (r: Result<Ordering, Error>)
        ensures
            r == self@.compare_nul_terminated(value@),
    {
        let key = self.nul_terminated_bytes()?;
        let sign = compare_bytes(key, value);
        Ok(order_from_sign(sign))
    }

    pub(crate) fn read_u64(&self, width: BitWidth) -> (r: Result<u64, Error>)
        ensures
            r == self@.read_u64(width),
    {
        match width {
            BitWidth::W8 => {
                let b = self.read_u8()?;
                proof {
                    lemma_le_value_one(self@.bytes.subrange(self@.addr, self@.addr + 1));
                }
                Ok(b as u64)
            },
            BitWidth::W16 => {
                let bytes = self.bytes(2)?;
                assert(bytes@.subrange(0, 2) =~= bytes@);
                Ok(le_read_u16(bytes) as u64)
            },
            BitWidth::W32 => {
                let bytes = self.bytes(4)?;
                assert(bytes@.subrange(0, 4) =~= bytes@);
                Ok(le_read_u32(bytes) as u64)
            },
            BitWidth::W64 => {
                let bytes = self.bytes(8)?;
                assert(bytes@.subrange(0, 8) =~= bytes@);
                Ok(le_read_u64(bytes))
            },
        }
    }

    pub(crate) fn read_i64(&self, width: BitWidth) -> (r: Result<i64, Error>)
        ensures
            r == self@.read_i64(width),
    {
        match width {
            BitWidth::W8 => {
                let b = self.read_u8()?;
                proof {
                    lemma_le_value_one(self@.bytes.subrange(self@.addr, self@.addr + 1));
                    reveal_with_fuel(pow2, 9);
                }
                let v = b as i8;
                assert(v as int == signed_value(b as nat, 8)) by (bit_vector)
                    requires
                        v == b as i8,
                ;
                Ok(v as i64)
            },
            BitWidth::W16 => {
                let bytes = self.bytes(2)?;
                assert(bytes@.subrange(0, 2) =~= bytes@);
                Ok(le_read_i16(bytes) as i64)
            },
            BitWidth::W32 => {
                let bytes = self.bytes(4)?;
                assert(bytes@.subrange(0, 4) =~= bytes@);
                Ok(le_read_i32(bytes) as i64)
            },
            BitWidth::W64 => {
                let bytes = self.bytes(8)?;
                assert(bytes@.subrange(0, 8) =~= bytes@);
                Ok(le_read_i64(bytes))
            },
        }
    }

    pub(crate) fn read_usize(&self, width: BitWidth) -> (r: Result<usize, Error>)
        ensures
            r == self@.read_usize(width),
    {
        let v = self.read_u64(width)?;
        if v <= usize::MAX as u64 {
            Ok(v as usize)
        } else {
            Err(Error::ReadUsizeOverflowed)
        }
    }

    pub(crate) fn deref_offset(&self, width: BitWidth) -> (r: Result<Self, Error>)
        ensures
            cursor_result(r) == self@.deref_offset(width),
    {
        let offset = self.read_usize(width)?;
        self.sub(offset)
    }
}

} // verus!

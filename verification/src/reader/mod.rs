use crate::bitwidth::BitWidth;
use crate::flexbuffer_type::FlexBufferType;
use vstd::prelude::*;
use vstd::string::StringSliceAdditionalSpecFns;
use vstd::utf8::{decode_utf8, encode_utf8_decode_utf8, valid_utf8};

mod cursor;
mod iter;
mod laws;
mod map;
mod meaning;
mod numbers;
mod sealed;
mod slice;
mod vector;

use cursor::{bytes_result, cursor_result, BufferCursor};
use numbers::{parse_i64, parse_u64};
pub use cursor::{
    is_nul_distance, le_value, lemma_nul_distance_unique, lex_cmp, lex_sign, order_of, pow2,
    signed_value, CursorView,
};
pub use iter::{IterView, ReaderIterator};
pub use laws::{
    ceil_log2, in_buffer, key_of, lemma_ceil_log2_bounds, lemma_cursor_at_addr,
    lemma_cursor_moves_stay_in_buffer, lemma_cursor_bytes, lemma_found_key_matches, lemma_map_search_probes,
    lemma_nul_terminated_len, lemma_search_probes_bound, lemma_signed_value_widths,
    lemma_empty_map_finds_nothing, lemma_le_value_bound, pow256, lemma_get_bool_bytes,
    lemma_iter_key_indexes_back, lemma_keys_vector_key, lemma_length_slot, keys_readable, keys_sorted, lemma_get_checks_type, lemma_index_by_own_key,
    lemma_index_key_sorted, lemma_key_index_agrees, lemma_lex_sign_antisymmetric,
    lemma_lex_sign_reflexive, lemma_lex_sign_zero_equal, lemma_map_value_in_buffer,
    lemma_new_reader_in_buffer, lemma_root_in_buffer, lemma_unpack_packed_type,
    lemma_vector_element_in_buffer,
};
pub use meaning::{
    le_at, lemma_as_bool_meaning, lemma_get_int_bytes, lemma_get_vector_length, lemma_key_at_bytes,
    lemma_length_prefixed_bytes, lemma_slice_bytes, lemma_vector_index_bytes, lemma_as_i64_meaning, lemma_as_u64_meaning, lemma_get_map_bytes,
    lemma_get_root_bytes, lemma_read_at, lemma_usize_index_bytes, lemma_values_vector_is_values,
};
pub use map::{key_at, key_bytes_at, search_keys, search_probes, KeyIterator, MapReader, MapReaderIndexer, MapView};
pub use numbers::{digits_value, spec_parse_i64, spec_parse_u64};
pub use slice::{decodes_to, ReadLE};
pub use vector::{null_reader_view, VectorReader, VectorView};

verus! {

/// Declares `std::str::Utf8Error`, which the `Utf8Error` variant carries.
#[verifier::external_type_specification]
#[verifier::external_body]
pub struct ExUtf8Error(std::str::Utf8Error);

/// All the possible errors when reading a flexbuffer.
#[allow(inconsistent_fields)]
#[derive(Debug, PartialEq, Eq, Clone)]
pub enum Error {
    /// One of the following data errors occured:
    ///
    /// *    The encoded data referenced bytes outside the flexbuffer.
    /// *    Address or length arithmetic overflowed.
    /// *    A key had no null terminator within the flexbuffer.
    /// *    A map contained different numbers of keys and values.
    /// *    The 'negative indicies' where length and map keys are stored were out of bounds
    /// *    The buffer was too small to contain a flexbuffer root.
    FlexbufferOutOfBounds,
    /// Failed to parse a valid FlexbufferType and Bitwidth from a type byte.
    InvalidPackedType,
    /// Flexbuffer type of the read data does not match function used.
    UnexpectedFlexbufferType { expected: FlexBufferType, actual: FlexBufferType },
    /// BitWidth type of the read data does not match function used.
    UnexpectedBitWidth { expected: BitWidth, actual: BitWidth },
    /// Read a flexbuffer offset or length that overflowed usize.
    ReadUsizeOverflowed,
    /// Tried to index a type that's not one of the Flexbuffer vector types.
    CannotIndexAsVector,
    /// Tried to index a Flexbuffer vector or map out of bounds.
    IndexOutOfBounds,
    /// A Map was indexed with a key that it did not contain.
    KeyNotFound,
    /// Failed to parse a Utf8 string.
    /// The Option is `None` only where the error was built by hand.
    Utf8Error(Option<Box<std::str::Utf8Error>>),
    /// get_slice failed because the given data buffer is misaligned.
    AlignmentError,
    /// The last byte of the buffer is not the width of a root offset.
    InvalidRootWidth,
    /// A map's keys vector is stored with a width that is not 1, 2, 4 or 8.
    InvalidMapKeysVectorWidth,
}

impl From<std::str::Utf8Error> for Error {
    fn from(e: std::str::Utf8Error) -> (r: Self) {
        Error::Utf8Error(Some(Box::new(e)))
    }
}

impl vstd::std_specs::convert::FromSpecImpl<std::str::Utf8Error> for Error {
    open spec fn obeys_from_spec() -> bool {
        true
    }

    open spec fn from_spec(e: std::str::Utf8Error) -> Self {
        Error::Utf8Error(Some(Box::new(e)))
    }
}

/// Calls `std::str::from_utf8`, which gives back the string whose UTF-8
/// encoding is `v` where `v` is valid UTF-8, and an error where it is not.
#[verifier::external_body]
fn str_from_utf8<'a>(v: &'a [u8]) -> (r: Result<&'a str, std::str::Utf8Error>)
    ensures
        match r {
            Ok(s) => valid_utf8(v@) && s.spec_bytes() == v@,
            Err(_) => !valid_utf8(v@),
        },
{
    std::str::from_utf8(v)
}

/// `r` is the string that the bytes `raw` encode, or the error that reading
/// them or decoding them gave.
pub open spec fn utf8_result<'a>(r: Result<&'a str, Error>, raw: Result<Seq<u8>, Error>) -> bool {
    match raw {
        Ok(b) => if valid_utf8(b) {
            r matches Ok(s) && s.spec_bytes() == b && s@ == decode_utf8(b)
        } else {
            r matches Err(Error::Utf8Error(Some(_)))
        },
        Err(e) => r == Err::<&'a str, Error>(e),
    }
}

/// The characters that `raw` decodes to, or none where reading or decoding
/// failed.
pub open spec fn chars_or_empty(raw: Result<Seq<u8>, Error>) -> Seq<char> {
    match raw {
        Ok(b) => if valid_utf8(b) {
            decode_utf8(b)
        } else {
            Seq::empty()
        },
        Err(_) => Seq::empty(),
    }
}

/// Decodes `bytes` as UTF-8.
fn utf8_str<'a>(bytes: &'a [u8]) -> (r: Result<&'a str, Error>)
    ensures
        utf8_result(r, Ok(bytes@)),
{
    match str_from_utf8(bytes) {
        Ok(s) => {
            proof {
                encode_utf8_decode_utf8(s@);
            }
            Ok(s)
        },
        Err(e) => Err(Error::from(e)),
    }
}

/// The type and the width that a packed type byte holds: the type in its upper
/// six bits, the width in its lower two.
pub open spec fn spec_unpack_type(ty: u8) -> Result<(FlexBufferType, BitWidth), Error> {
    match (BitWidth::spec_from_code(ty % 4), FlexBufferType::spec_from_code(ty / 4)) {
        (Some(w), Some(t)) => Ok((t, w)),
        _ => Err(Error::InvalidPackedType),
    }
}

/// Splits a packed type byte into its type and its width.
pub fn unpack_type(ty: u8) -> (r: Result<(FlexBufferType, BitWidth), Error>)
    ensures
        r == spec_unpack_type(ty),
{
    let low = ty & 3u8;
    let high = ty >> 2u8;
    assert(low == ty % 4 && high == ty / 4) by (bit_vector)
        requires
            low == ty & 3u8,
            high == ty >> 2u8,
    ;
    let w = match BitWidth::from_u8(low) {
        Some(w) => w,
        None => return Err(Error::InvalidPackedType),
    };
    let t = match FlexBufferType::from_u8(high) {
        Some(t) => t,
        None => return Err(Error::InvalidPackedType),
    };
    Ok((t, w))
}

/// Some byte of `b` is not zero.
pub open spec fn any_nonzero(b: Seq<u8>) -> bool {
    exists|i: int| 0 <= i < b.len() && b[i] != 0
}

/// What a reader stands for: a position in a buffer, with the type and the
/// width of the value there.
pub ghost struct ReaderView {
    pub cursor: CursorView,
    pub ty: FlexBufferType,
    pub width: BitWidth,
}

/// The type that an indirect type refers to, or the type itself.
pub open spec fn direct_type(t: FlexBufferType) -> FlexBufferType {
    match t.spec_to_direct() {
        Some(d) => d,
        None => t,
    }
}

/// The reader for a value of type `ty` and width `width` whose slot is at
/// `cursor`, in a parent of width `parent_width`: a value stored by offset is
/// found by following the offset in the slot.
pub open spec fn spec_new_reader(
    cursor: CursorView,
    ty: FlexBufferType,
    width: BitWidth,
    parent_width: BitWidth,
) -> Result<ReaderView, Error> {
    if ty.spec_is_reference() {
        match cursor.deref_offset(parent_width) {
            Ok(c) => Ok(ReaderView { cursor: c, ty: direct_type(ty), width }),
            Err(e) => Err(e),
        }
    } else {
        Ok(ReaderView { cursor, ty, width })
    }
}

/// The root of the flexbuffer `bytes`: its last byte is the width of the root
/// slot, the byte before it the packed type of the root, and the root slot
/// stands just before that.
pub open spec fn spec_get_root(bytes: Seq<u8>) -> Result<ReaderView, Error> {
    let len = bytes.len() as int;
    if len < 3 {
        Err(Error::FlexbufferOutOfBounds)
    } else {
        match BitWidth::spec_from_nbytes(bytes[len - 1] as int) {
            None => Err(Error::InvalidRootWidth),
            Some(root_width) => match spec_unpack_type(bytes[len - 2]) {
                Err(e) => Err(e),
                Ok((ty, width)) => match (CursorView { bytes, addr: len - 2 }).sub(
                    root_width.spec_n_bytes(),
                ) {
                    Err(e) => Err(e),
                    Ok(root) => spec_new_reader(root, ty, width, root_width),
                },
            },
        }
    }
}

impl ReaderView {
    /// The reader stands at an address within its buffer, at or before its
    /// end, and not for an indirect value: every reader that this crate hands
    /// out is so.
    pub open spec fn wf(self) -> bool {
        &&& 0 <= self.cursor.addr <= self.cursor.bytes.len()
        &&& self.ty.spec_to_direct().is_none()
    }

    /// Succeeds where the value has type `t`.
    pub open spec fn expect_type(self, t: FlexBufferType) -> Result<(), Error> {
        if self.ty == t {
            Ok(())
        } else {
            Err(Error::UnexpectedFlexbufferType { expected: t, actual: self.ty })
        }
    }

    /// The number of elements (of bytes, for strings and blobs) of the value.
    pub open spec fn try_length(self) -> Result<usize, Error> {
        match self.ty.spec_fixed_length_vector_length() {
            Some(n) => Ok(n),
            None => if self.ty.spec_has_length_slot() {
                match self.cursor.sub(self.width.spec_n_bytes()) {
                    Ok(c) => c.read_usize(self.width),
                    Err(e) => Err(e),
                }
            } else {
                Ok(0)
            },
        }
    }

    /// The length of the value, or 0 where it has none or it cannot be read.
    pub open spec fn length(self) -> usize {
        match self.try_length() {
            Ok(n) => n,
            Err(_) => 0,
        }
    }

    /// A boolean is true where any byte of its slot is not zero.
    pub open spec fn get_bool(self) -> Result<bool, Error> {
        match self.expect_type(FlexBufferType::Bool) {
            Err(e) => Err(e),
            Ok(_) => match self.cursor.bytes(self.width.spec_n_bytes()) {
                Ok(b) => Ok(any_nonzero(b)),
                Err(e) => Err(e),
            },
        }
    }

    /// The bytes of a key: those before its zero terminator.
    pub open spec fn key_bytes(self) -> Result<Seq<u8>, Error> {
        match self.expect_type(FlexBufferType::Key) {
            Err(e) => Err(e),
            Ok(_) => self.cursor.nul_terminated_bytes(),
        }
    }

    /// The bytes of a value of type `t` whose length stands before it.
    pub open spec fn length_prefixed_bytes(self, t: FlexBufferType) -> Result<Seq<u8>, Error> {
        match self.expect_type(t) {
            Err(e) => Err(e),
            Ok(_) => match self.try_length() {
                Ok(n) => self.cursor.bytes(n as int),
                Err(e) => Err(e),
            },
        }
    }

    pub open spec fn get_u64(self) -> Result<u64, Error> {
        match self.expect_type(FlexBufferType::UInt) {
            Err(e) => Err(e),
            Ok(_) => self.cursor.read_u64(self.width),
        }
    }

    pub open spec fn get_i64(self) -> Result<i64, Error> {
        match self.expect_type(FlexBufferType::Int) {
            Err(e) => Err(e),
            Ok(_) => self.cursor.read_i64(self.width),
        }
    }

    /// The vector that the value is, with its length.
    pub open spec fn get_vector(self) -> Result<VectorView, Error> {
        if !self.ty.spec_is_vector() {
            Err(Error::UnexpectedFlexbufferType { expected: FlexBufferType::Vector, actual: self.ty })
        } else {
            match self.try_length() {
                Ok(n) => Ok(VectorView { reader: self, length: n }),
                Err(e) => Err(e),
            }
        }
    }

    /// Where a map keeps its keys: the cursor at the offset to its keys vector,
    /// and the width of that vector, both stored before the map's length.
    pub open spec fn map_info(self) -> Result<(CursorView, BitWidth), Error> {
        match self.expect_type(FlexBufferType::KeyValueMap) {
            Err(e) => Err(e),
            Ok(_) => match self.cursor.sub(3 * self.width.spec_n_bytes()) {
                Err(e) => Err(e),
                Ok(keys_offset) => match self.cursor.sub(2 * self.width.spec_n_bytes()) {
                    Err(e) => Err(e),
                    Ok(c) => match c.read_usize(self.width) {
                        Err(e) => Err(e),
                        Ok(kw) => match BitWidth::spec_from_nbytes(kw as int) {
                            None => Err(Error::InvalidMapKeysVectorWidth),
                            Some(keys_width) => Ok((keys_offset, keys_width)),
                        },
                    },
                },
            },
        }
    }

    /// The map that the value is: its keys vector must hold as many keys as
    /// the map holds values.
    pub open spec fn get_map(self) -> Result<MapView, Error> {
        match self.map_info() {
            Err(e) => Err(e),
            Ok((keys_offset, keys_width)) => match keys_offset.deref_offset(self.width) {
                Err(e) => Err(e),
                Ok(keys) => match self.try_length() {
                    Err(e) => Err(e),
                    Ok(length) => match keys.sub(keys_width.spec_n_bytes()) {
                        Err(e) => Err(e),
                        Ok(c) => match c.read_usize(keys_width) {
                            Err(e) => Err(e),
                            Ok(keys_length) => if keys_length != length {
                                Err(Error::FlexbufferOutOfBounds)
                            } else {
                                Ok(
                                    MapView {
                                        values: self.cursor,
                                        keys_addr: keys.addr,
                                        values_width: self.width,
                                        keys_width,
                                        length,
                                    },
                                )
                            },
                        },
                    },
                },
            },
        }
    }

    /// The bytes of a float: four or eight of them, as its width says.
    pub open spec fn float_bytes(self) -> Result<Seq<u8>, Error> {
        match self.expect_type(FlexBufferType::Float) {
            Err(e) => Err(e),
            Ok(_) => if self.width == BitWidth::W8 || self.width == BitWidth::W16 {
                Err(Error::InvalidPackedType)
            } else {
                self.cursor.bytes(self.width.spec_n_bytes())
            },
        }
    }

    /// The characters of a string or key, or none.
    pub open spec fn as_str(self) -> Seq<char> {
        if self.ty == FlexBufferType::String {
            chars_or_empty(self.length_prefixed_bytes(FlexBufferType::String))
        } else if self.ty == FlexBufferType::Key {
            chars_or_empty(self.key_bytes())
        } else {
            Seq::empty()
        }
    }

    /// The value as a `u64`, where the value of a float cast to `u64` is
    /// `float_as_u64`.
    pub open spec fn as_u64(self, float_as_u64: u64) -> u64 {
        if self.ty == FlexBufferType::UInt {
            match self.get_u64() {
                Ok(v) => v,
                Err(_) => 0,
            }
        } else if self.ty == FlexBufferType::Int {
            match self.get_i64() {
                Ok(v) => if v >= 0 {
                    v as u64
                } else {
                    0
                },
                Err(_) => 0,
            }
        } else if self.ty == FlexBufferType::Float {
            float_as_u64
        } else if self.ty == FlexBufferType::String {
            match spec_parse_u64(self.as_str()) {
                Some(v) => v,
                None => 0,
            }
        } else if self.ty.spec_is_vector() {
            self.length() as u64
        } else {
            0
        }
    }

    /// The value as an `i64`, where the value of a float cast to `i64` is
    /// `float_as_i64`.
    pub open spec fn as_i64(self, float_as_i64: i64) -> i64 {
        if self.ty == FlexBufferType::Int {
            match self.get_i64() {
                Ok(v) => v,
                Err(_) => 0,
            }
        } else if self.ty == FlexBufferType::UInt {
            match self.get_u64() {
                Ok(v) => if v <= i64::MAX {
                    v as i64
                } else {
                    0
                },
                Err(_) => 0,
            }
        } else if self.ty == FlexBufferType::Float {
            float_as_i64
        } else if self.ty == FlexBufferType::String {
            match spec_parse_i64(self.as_str()) {
                Some(v) => v,
                None => 0,
            }
        } else if self.ty.spec_is_vector() {
            self.length() as i64
        } else {
            0
        }
    }

    /// The value as a boolean, where a float counts as true exactly where
    /// `float_is_nonzero`.
    pub open spec fn as_bool(self, float_is_nonzero: bool) -> bool {
        if self.ty == FlexBufferType::Bool {
            match self.get_bool() {
                Ok(b) => b,
                Err(_) => false,
            }
        } else if self.ty == FlexBufferType::UInt {
            self.as_u64(0) != 0
        } else if self.ty == FlexBufferType::Int {
            self.as_i64(0) != 0
        } else if self.ty == FlexBufferType::Float {
            float_is_nonzero
        } else if self.ty == FlexBufferType::String || self.ty == FlexBufferType::Key {
            self.as_str().len() != 0
        } else if self.ty == FlexBufferType::Null {
            false
        } else {
            self.length() != 0
        }
    }
}

/// The view of the reader that an operation gives back, or its error.
pub open spec fn reader_result<'a>(r: Result<Reader<'a>, Error>) -> Result<ReaderView, Error> {
    match r {
        Ok(reader) => Ok(reader@),
        Err(e) => Err(e),
    }
}

/// A run of bytes stored in a flexbuffer.
pub struct Blob<'a>(pub &'a [u8]);

/// `Reader`s allow access to data stored in a Flexbuffer.
///
/// Each reader represents a single address in the buffer so data is read lazily. Start a reader
/// by calling `get_root` on your flexbuffer `&[u8]`.
///
/// - The `get_T` methods return a `Result<T, Error>`. They return an OK value if and only if the
/// flexbuffer type matches `T`.
/// - The `as_T` methods will try their best to return to a value of type `T`
/// (by casting or even parsing a string if necessary) but ultimately returns `T::default` if it
/// fails.
pub struct Reader<'a> {
    fxb_type: FlexBufferType,
    width: BitWidth,
    cursor: BufferCursor<'a>,
}

impl<'a> View for Reader<'a> {
    type V = ReaderView;

    closed spec fn view(&self) -> ReaderView {
        ReaderView { cursor: self.cursor@, ty: self.fxb_type, width: self.width }
    }
}

impl<'a> Reader<'a> {
    /// A reader stands within its buffer, never for an indirect value: the
    /// offset has been followed.
    #[verifier::type_invariant]
    pub(crate) open spec fn well_formed(self) -> bool {
        self@.wf()
    }

    fn new(
        cursor: BufferCursor<'a>,
        fxb_type: FlexBufferType,
        width: BitWidth,
        parent_width: BitWidth,
    ) -> (r: Result<Self, Error>)
        requires
            0 <= cursor@.addr <= cursor@.bytes.len(),
        ensures
            reader_result(r) == spec_new_reader(cursor@, fxb_type, width, parent_width),
    {
        let mut cursor = cursor;
        let mut fxb_type = fxb_type;
        if fxb_type.is_reference() {
            cursor = cursor.deref_offset(parent_width)?;
            if let Some(t) = fxb_type.to_direct() {
                fxb_type = t;
            }
        }
        Ok(Reader { cursor, fxb_type, width })
    }

    pub(crate) fn direct(cursor: BufferCursor<'a>, fxb_type: FlexBufferType, width: BitWidth) -> (r: Self)
        requires
            fxb_type.spec_to_direct().is_none(),
            0 <= cursor@.addr <= cursor@.bytes.len(),
        ensures
            r@ == (ReaderView { cursor: cursor@, ty: fxb_type, width }),
    {
        Reader { cursor, fxb_type, width }
    }

    pub(crate) fn cursor(&self) -> (c: &BufferCursor<'a>)
        ensures
            c@ == self@.cursor,
    {
        &self.cursor
    }

    /// Parses the flexbuffer from the given buffer. Assumes the flexbuffer root is the last byte
    /// of the buffer.
    pub fn get_root(buffer: &'a [u8]) -> (r: Result<Self, Error>)
        ensures
            reader_result(r) == spec_get_root(buffer@),
            r matches Ok(reader) ==> reader@.wf(),
    {
        let buffer_len = buffer.len();
        if buffer_len < 3 {
            return Err(Error::FlexbufferOutOfBounds);
        }
        let end = BufferCursor::new(buffer, buffer_len)?;
        // Last byte is the root width.
        let root_width = match BitWidth::from_nbytes(end.sub(1)?.read_u8()? as usize) {
            Some(w) => w,
            None => return Err(Error::InvalidRootWidth),
        };
        // Second last byte is root type.
        let root_type = end.sub(2)?;
        let (fxb_type, width) = unpack_type(root_type.read_u8()?)?;
        // Location of root data. (BitWidth bits before root type)
        let root = root_type.sub(root_width.n_bytes())?;
        let r = Self::new(root, fxb_type, width, root_width);
        proof {
            if let Ok(reader) = &r {
                use_type_invariant(reader);
            }
        }
        r
    }

    /// Returns the underlying buffer.
    pub fn buffer(&self) -> (b: &'a [u8])
        ensures
            b@ == self@.cursor.bytes,
            self@.wf(),
    {
        proof {
            use_type_invariant(self);
        }
        self.cursor.buffer()
    }

    /// Returns the FlexBufferType of this Reader.
    pub fn flexbuffer_type(&self) -> (t: FlexBufferType)
        ensures
            t == self@.ty,
            self@.wf(),
    {
        proof {
            use_type_invariant(self);
        }
        self.fxb_type
    }

    /// Returns the bitwidth of this Reader.
    pub fn bitwidth(&self) -> (w: BitWidth)
        ensures
            w == self@.width,
            self@.wf(),
    {
        proof {
            use_type_invariant(self);
        }
        self.width
    }

    /// Returns the length of the Flexbuffer. If the type has no length, or if an error occurs,
    /// 0 is returned.
    pub fn length(&self) -> (n: usize)
        ensures
            n == self@.length(),
            self@.wf(),
    {
        proof {
            use_type_invariant(self);
        }
        match self.try_length() {
            Ok(n) => n,
            Err(_) => 0,
        }
    }

    pub(crate) fn try_length(&self) -> (r: Result<usize, Error>)
        ensures
            r == self@.try_length(),
    {
        if let Some(len) = self.fxb_type.fixed_length_vector_length() {
            Ok(len)
        } else if self.fxb_type.has_length_slot() {
            self.cursor.sub(self.width.n_bytes())?.read_usize(self.width)
        } else {
            Ok(0)
        }
    }

    fn expect_type(&self, ty: FlexBufferType) -> (r: Result<(), Error>)
        ensures
            r == self@.expect_type(ty),
    {
        if self.fxb_type == ty {
            Ok(())
        } else {
            Err(Error::UnexpectedFlexbufferType { expected: ty, actual: self.fxb_type })
        }
    }

    fn expect_bw(&self, bw: BitWidth) -> (r: Result<(), Error>)
        ensures
            r == (if self@.width == bw {
                Ok(())
            } else {
                Err(Error::UnexpectedBitWidth { expected: bw, actual: self@.width })
            }),
    {
        if self.width == bw {
            Ok(())
        } else {
            Err(Error::UnexpectedBitWidth { expected: bw, actual: self.width })
        }
    }

    /// Returns the value of the reader if it is a boolean.
    /// Otherwise Returns error.
    pub fn get_bool(&self) -> (r: Result<bool, Error>)
        ensures
            r == self@.get_bool(),
    {
        self.expect_type(FlexBufferType::Bool)?;
        let bytes = self.cursor.bytes(self.width.n_bytes())?;
        let mut i: usize = 0;
        while i < bytes.len()
            invariant
                i <= bytes@.len(),
                forall|j: int| 0 <= j < i ==> bytes@[j] == 0,
                self@.ty == FlexBufferType::Bool,
                self@.cursor.bytes(self@.width.spec_n_bytes()) == Ok::<Seq<u8>, Error>(bytes@),
            decreases bytes@.len() - i,
        {
            if bytes[i] != 0 {
                assert(bytes@[i as int] != 0);
                return Ok(true);
            }
            i = i + 1;
        }
        Ok(false)
    }

    /// Gets the length of the key if this type is a key.
    ///
    /// Otherwise, returns an error.
    fn get_key_len(&self) -> (r: Result<usize, Error>)
        ensures
            r == (match self@.expect_type(FlexBufferType::Key) {
                Err(e) => Err(e),
                Ok(_) => self@.cursor.nul_terminated_len(),
            }),
    {
        self.expect_type(FlexBufferType::Key)?;
        self.cursor.nul_terminated_len()
    }

    /// Retrieves the string value up until the first `\0` character.
    pub fn get_key(&self) -> (r: Result<&'a str, Error>)
        ensures
            utf8_result(r, self@.key_bytes()),
    {
        let bytes = self.cursor.slice(self.get_key_len()?)?;
        utf8_str(bytes)
    }

    pub fn get_blob(&self) -> (r: Result<Blob<'a>, Error>)
        ensures
            match r {
                Ok(b) => self@.length_prefixed_bytes(FlexBufferType::Blob) == Ok::<Seq<u8>, Error>(b.0@),
                Err(e) => self@.length_prefixed_bytes(FlexBufferType::Blob) == Err::<Seq<u8>, Error>(e),
            },
    {
        self.expect_type(FlexBufferType::Blob)?;
        Ok(Blob(self.cursor.slice(self.try_length()?)?))
    }

    pub fn as_blob(&self) -> (b: Blob<'a>)
        ensures
            b.0@ == (match self@.length_prefixed_bytes(FlexBufferType::Blob) {
                Ok(bytes) => bytes,
                Err(_) => Seq::empty(),
            }),
    {
        match self.get_blob() {
            Ok(b) => b,
            Err(_) => Blob(BufferCursor::default().buffer()),
        }
    }

    /// Retrieves str pointer, errors if invalid UTF-8, or the provided index
    /// is out of bounds.
    pub fn get_str(&self) -> (r: Result<&'a str, Error>)
        ensures
            utf8_result(r, self@.length_prefixed_bytes(FlexBufferType::String)),
    {
        self.expect_type(FlexBufferType::String)?;
        let bytes = self.cursor.slice(self.try_length()?)?;
        utf8_str(bytes)
    }

    /// Tries to read a FlexBufferType::UInt. Returns Err if the type is not a UInt or if the
    /// address is out of bounds.
    pub fn get_u64(&self) -> (r: Result<u64, Error>)
        ensures
            r == self@.get_u64(),
    {
        self.expect_type(FlexBufferType::UInt)?;
        self.cursor.read_u64(self.width)
    }

    /// Tries to read a FlexBufferType::Int. Returns Err if the type is not a Int or if the
    /// address is out of bounds.
    pub fn get_i64(&self) -> (r: Result<i64, Error>)
        ensures
            r == self@.get_i64(),
    {
        self.expect_type(FlexBufferType::Int)?;
        self.cursor.read_i64(self.width)
    }

    pub fn get_vector(&self) -> (r: Result<VectorReader<'a>, Error>)
        ensures
            match r {
                Ok(v) => self@.get_vector() == Ok::<VectorView, Error>(v@) && v@.wf(),
                Err(e) => self@.get_vector() == Err::<VectorView, Error>(e),
            },
    {
        proof {
            use_type_invariant(self);
        }
        if !self.fxb_type.is_vector() {
            self.expect_type(FlexBufferType::Vector)?;
        }
        let length = self.try_length()?;
        Ok(VectorReader::from_parts(self.clone(), length))
    }

    pub fn as_vector(&self) -> (v: VectorReader<'a>)
        ensures
            v@ == (match self@.get_vector() {
                Ok(v) => v,
                Err(_) => VectorView { reader: null_reader_view(), length: 0 },
            }),
            v@.wf(),
    {
        match self.get_vector() {
            Ok(v) => v,
            Err(_) => VectorReader::from_parts(Reader::default(), 0),
        }
    }

    fn get_map_info(&self) -> (r: Result<(BufferCursor<'a>, BitWidth), Error>)
        ensures
            match r {
                Ok((c, w)) => self@.map_info() == Ok::<(CursorView, BitWidth), Error>((c@, w)),
                Err(e) => self@.map_info() == Err::<(CursorView, BitWidth), Error>(e),
            },
    {
        self.expect_type(FlexBufferType::KeyValueMap)?;
        let keys_offset = self.cursor.sub(3 * self.width.n_bytes())?;
        let kw = self.cursor.sub(2 * self.width.n_bytes())?.read_usize(self.width)?;
        let keys_width = match BitWidth::from_nbytes(kw) {
            Some(w) => w,
            None => return Err(Error::InvalidMapKeysVectorWidth),
        };
        Ok((keys_offset, keys_width))
    }

    pub fn get_map(&self) -> (r: Result<MapReader<'a>, Error>)
        ensures
            match r {
                Ok(m) => self@.get_map() == Ok::<MapView, Error>(m@) && m@.wf(),
                Err(e) => self@.get_map() == Err::<MapView, Error>(e),
            },
    {
        proof {
            use_type_invariant(self);
        }
        let (keys_offset, keys_width) = self.get_map_info()?;
        let keys = keys_offset.deref_offset(self.width)?;
        let length = self.try_length()?;
        let keys_length = keys.sub(keys_width.n_bytes())?.read_usize(keys_width)?;
        if keys_length != length {
            return Err(Error::FlexbufferOutOfBounds);
        }
        Ok(MapReader::from_parts(self.cursor.clone(), keys.address(), self.width, keys_width, length))
    }

    pub fn as_map(&self) -> (m: MapReader<'a>)
        ensures
            m@ == (match self@.get_map() {
                Ok(m) => m,
                Err(_) => MapView {
                    values: CursorView { bytes: Seq::empty(), addr: 0 },
                    keys_addr: 0,
                    values_width: BitWidth::W8,
                    keys_width: BitWidth::W8,
                    length: 0,
                },
            }),
            m@.wf(),
    {
        match self.get_map() {
            Ok(m) => m,
            Err(_) => MapReader::default(),
        }
    }

    /// The bytes of a float value: four for a 32-bit float, eight for a 64-bit
    /// one. Decoding them is left to the caller, as this crate holds no
    /// floating point.
    pub fn get_float_bytes(&self) -> (r: Result<&'a [u8], Error>)
        ensures
            bytes_result(r) == self@.float_bytes(),
    {
        self.expect_type(FlexBufferType::Float)?;
        match self.width {
            BitWidth::W8 | BitWidth::W16 => Err(Error::InvalidPackedType),
            BitWidth::W32 => self.cursor.bytes(4),
            BitWidth::W64 => self.cursor.bytes(8),
        }
    }

    /// Returns a u64, casting if necessary. For Maps and Vectors, their length is
    /// returned. If anything fails, 0 is returned. A float is not read here:
    /// `float_as_u64` is what its value cast to `u64` gives.
    pub fn as_u64_with_float(&self, float_as_u64: u64) -> (v: u64)
        ensures
            v == self@.as_u64(float_as_u64),
    {
        match self.fxb_type {
            FlexBufferType::UInt => match self.get_u64() {
                Ok(v) => v,
                Err(_) => 0,
            },
            FlexBufferType::Int => match self.get_i64() {
                Ok(v) => if v >= 0 {
                    v as u64
                } else {
                    0
                },
                Err(_) => 0,
            },
            FlexBufferType::Float => float_as_u64,
            FlexBufferType::String => {
                if let Ok(s) = self.get_str() {
                    if let Some(v) = parse_u64(s) {
                        return v;
                    }
                }
                0
            },
            _ => if self.fxb_type.is_vector() {
                self.length() as u64
            } else {
                0
            },
        }
    }

    /// Returns an i64, casting if necessary. For Maps and Vectors, their length is
    /// returned. If anything fails, 0 is returned. A float is not read here:
    /// `float_as_i64` is what its value cast to `i64` gives.
    pub fn as_i64_with_float(&self, float_as_i64: i64) -> (v: i64)
        ensures
            v == self@.as_i64(float_as_i64),
    {
        match self.fxb_type {
            FlexBufferType::Int => match self.get_i64() {
                Ok(v) => v,
                Err(_) => 0,
            },
            FlexBufferType::UInt => match self.get_u64() {
                Ok(v) => if v <= i64::MAX as u64 {
                    v as i64
                } else {
                    0
                },
                Err(_) => 0,
            },
            FlexBufferType::Float => float_as_i64,
            FlexBufferType::String => {
                if let Ok(s) = self.get_str() {
                    if let Some(v) = parse_i64(s) {
                        return v;
                    }
                }
                0
            },
            _ => if self.fxb_type.is_vector() {
                self.length() as i64
            } else {
                0
            },
        }
    }

    /// `as_u64_with_float`, where it fits in a `u32`; 0 where it does not.
    pub fn as_u32_with_float(&self, float_as_u64: u64) -> (v: u32)
        ensures
            v == (if self@.as_u64(float_as_u64) <= u32::MAX {
                self@.as_u64(float_as_u64) as u32
            } else {
                0
            }),
    {
        let v = self.as_u64_with_float(float_as_u64);
        if v <= u32::MAX as u64 {
            v as u32
        } else {
            0
        }
    }

    /// `as_u64_with_float`, where it fits in a `u16`; 0 where it does not.
    pub fn as_u16_with_float(&self, float_as_u64: u64) -> (v: u16)
        ensures
            v == (if self@.as_u64(float_as_u64) <= u16::MAX {
                self@.as_u64(float_as_u64) as u16
            } else {
                0
            }),
    {
        let v = self.as_u64_with_float(float_as_u64);
        if v <= u16::MAX as u64 {
            v as u16
        } else {
            0
        }
    }

    /// `as_u64_with_float`, where it fits in a `u8`; 0 where it does not.
    pub fn as_u8_with_float(&self, float_as_u64: u64) -> (v: u8)
        ensures
            v == (if self@.as_u64(float_as_u64) <= u8::MAX {
                self@.as_u64(float_as_u64) as u8
            } else {
                0
            }),
    {
        let v = self.as_u64_with_float(float_as_u64);
        if v <= u8::MAX as u64 {
            v as u8
        } else {
            0
        }
    }

    /// `as_i64_with_float`, where it fits in an `i32`; 0 where it does not.
    pub fn as_i32_with_float(&self, float_as_i64: i64) -> (v: i32)
        ensures
            v == (if i32::MIN <= self@.as_i64(float_as_i64) <= i32::MAX {
                self@.as_i64(float_as_i64) as i32
            } else {
                0
            }),
    {
        let v = self.as_i64_with_float(float_as_i64);
        if i32::MIN as i64 <= v && v <= i32::MAX as i64 {
            v as i32
        } else {
            0
        }
    }

    /// `as_i64_with_float`, where it fits in an `i16`; 0 where it does not.
    pub fn as_i16_with_float(&self, float_as_i64: i64) -> (v: i16)
        ensures
            v == (if i16::MIN <= self@.as_i64(float_as_i64) <= i16::MAX {
                self@.as_i64(float_as_i64) as i16
            } else {
                0
            }),
    {
        let v = self.as_i64_with_float(float_as_i64);
        if i16::MIN as i64 <= v && v <= i16::MAX as i64 {
            v as i16
        } else {
            0
        }
    }

    /// `as_i64_with_float`, where it fits in an `i8`; 0 where it does not.
    pub fn as_i8_with_float(&self, float_as_i64: i64) -> (v: i8)
        ensures
            v == (if i8::MIN <= self@.as_i64(float_as_i64) <= i8::MAX {
                self@.as_i64(float_as_i64) as i8
            } else {
                0
            }),
    {
        let v = self.as_i64_with_float(float_as_i64);
        if i8::MIN as i64 <= v && v <= i8::MAX as i64 {
            v as i8
        } else {
            0
        }
    }

    /// Returns the value as a boolean: nonzero numbers, nonempty strings and
    /// keys, and blobs, vectors and maps with elements are true. A float is
    /// not read here: `float_is_nonzero` is whether its magnitude exceeds
    /// `f64::EPSILON`.
    pub fn as_bool_with_float(&self, float_is_nonzero: bool) -> (b: bool)
        ensures
            b == self@.as_bool(float_is_nonzero),
    {
        proof {
            use_type_invariant(self);
        }
        match self.fxb_type {
            FlexBufferType::Bool => match self.get_bool() {
                Ok(b) => b,
                Err(_) => false,
            },
            FlexBufferType::UInt => self.as_u64_with_float(0) != 0,
            FlexBufferType::Int => self.as_i64_with_float(0) != 0,
            FlexBufferType::Float => float_is_nonzero,
            FlexBufferType::String | FlexBufferType::Key => !self.as_str().is_empty(),
            FlexBufferType::Null => false,
            _ => self.length() != 0,
        }
    }

    /// Returns empty string if you're not trying to read a string.
    pub fn as_str(&self) -> (s: &'a str)
        ensures
            s@ == self@.as_str(),
    {
        proof {
            reveal_strlit("");
        }
        match self.fxb_type {
            FlexBufferType::String => match self.get_str() {
                Ok(s) => s,
                Err(_) => "",
            },
            FlexBufferType::Key => match self.get_key() {
                Ok(s) => s,
                Err(_) => "",
            },
            _ => "",
        }
    }
}

impl<'a> Clone for Reader<'a> {
    fn clone(&self) -> (r: Self)
        ensures
            r@ == self@,
    {
        proof {
            use_type_invariant(self);
        }
        Reader { cursor: self.cursor.clone(), fxb_type: self.fxb_type, width: self.width }
    }
}

impl<'a> Default for Reader<'a> {
    /// The reader of a null at address 0 of an empty buffer.
    fn default() -> (r: Self)
        ensures
            r@ == null_reader_view(),
    {
        Reader { cursor: BufferCursor::default(), fxb_type: FlexBufferType::Null, width: BitWidth::W8 }
    }
}

} // verus!

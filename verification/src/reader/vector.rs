use super::cursor::BufferCursor;
use super::{reader_result, spec_new_reader, spec_unpack_type, unpack_type, Error, Reader, ReaderView};
use super::iter::ReaderIterator;
use crate::bitwidth::BitWidth;
use crate::flexbuffer_type::FlexBufferType;
use vstd::prelude::*;

verus! {

/// What a vector reader stands for: the reader of the vector and its number
/// of elements.
pub ghost struct VectorView {
    pub reader: ReaderView,
    pub length: usize,
}

/// The reader that stands for nothing: a null at address 0 of an empty
/// buffer.
pub open spec fn null_reader_view() -> ReaderView {
    ReaderView {
        cursor: super::CursorView { bytes: Seq::empty(), addr: 0 },
        ty: FlexBufferType::Null,
        width: BitWidth::W8,
    }
}

impl VectorView {
    /// The vector's reader stands within its buffer.
    pub open spec fn wf(self) -> bool {
        self.reader.wf()
    }

    /// The type and width of element `i`: those of a typed vector, or those
    /// packed in the byte for `i` of the type table that follows the element
    /// slots of an untyped vector.
    pub open spec fn elem_type(self, i: int) -> Result<(FlexBufferType, BitWidth), Error> {
        match self.reader.ty.spec_typed_vector_type() {
            Some(t) => Ok((t, self.reader.width)),
            None => match self.reader.cursor.index(
                self.length as int,
                self.reader.width.spec_n_bytes(),
            ) {
                Err(e) => Err(e),
                Ok(table) => match table.add(i) {
                    Err(e) => Err(e),
                    Ok(c) => match c.read_u8() {
                        Err(e) => Err(e),
                        Ok(packed) => spec_unpack_type(packed),
                    },
                },
            },
        }
    }

    /// The reader of element `i`.
    pub open spec fn index(self, i: int) -> Result<ReaderView, Error> {
        if i >= self.length {
            Err(Error::IndexOutOfBounds)
        } else {
            match self.reader.cursor.index(i, self.reader.width.spec_n_bytes()) {
                Err(e) => Err(e),
                Ok(slot) => match self.elem_type(i) {
                    Err(e) => Err(e),
                    Ok((t, w)) => spec_new_reader(slot, t, w, self.reader.width),
                },
            }
        }
    }

    /// The reader of element `i`, or the null reader where it cannot be read.
    pub open spec fn idx(self, i: int) -> ReaderView {
        match self.index(i) {
            Ok(r) => r,
            Err(_) => null_reader_view(),
        }
    }
}

/// Allows indexing on any flexbuffer vector type, (heterogenous vector, typed vector, or fixed
/// length typed vector).
///
/// VectorReaders may be indexed with usize, `index` returns a result type
/// which may indicate failure due to indexing out of bounds or bad data. `idx` returns a
/// Null Reader in the event of any failure.
pub struct VectorReader<'a> {
    reader: Reader<'a>,
    length: usize,
}

impl<'a> View for VectorReader<'a> {
    type V = VectorView;

    closed spec fn view(&self) -> VectorView {
        VectorView { reader: self.reader@, length: self.length }
    }
}

impl<'a> VectorReader<'a> {
    /// A vector's reader stands within its buffer.
    #[verifier::type_invariant]
    pub(crate) open spec fn well_formed(self) -> bool {
        self@.wf()
    }

    pub(crate) fn from_parts(reader: Reader<'a>, length: usize) -> (v: Self)
        ensures
            v@ == (VectorView { reader: reader@, length }),
    {
        proof {
            use_type_invariant(&reader);
        }
        VectorReader { reader, length }
    }

    /// Returns the number of elements in the vector.
    pub fn len(&self) -> (n: usize)
        ensures
            n == self@.length,
            self@.wf(),
    {
        proof {
            use_type_invariant(self);
        }
        self.length
    }

    /// Returns true if there are 0 elements in the vector.
    pub fn is_empty(&self) -> (b: bool)
        ensures
            b == (self@.length == 0),
    {
        self.length == 0
    }

    /// Returns the type and width of element `i`.
    pub(crate) fn get_elem_type(&self, i: usize) -> (r: Result<(FlexBufferType, BitWidth), Error>)
        ensures
            r == self@.elem_type(i as int),
    {
        if let Some(ty) = self.reader.flexbuffer_type().typed_vector_type() {
            Ok((ty, self.reader.bitwidth()))
        } else {
            let packed = self.reader.cursor().index(self.length, self.reader.bitwidth().n_bytes())?.add(
                i,
            )?.read_u8()?;
            unpack_type(packed)
        }
    }

    /// Index into a flexbuffer vector.
    pub fn index(&self, i: usize) -> (r: Result<Reader<'a>, Error>)
        ensures
            reader_result(r) == self@.index(i as int),
            r matches Ok(reader) ==> reader@.wf(),
    {
        if i >= self.length {
            return Err(Error::IndexOutOfBounds);
        }
        let slot = self.reader.cursor().index(i, self.reader.bitwidth().n_bytes())?;
        let (fxb_type, width) = self.get_elem_type(i)?;
        let r = Reader::new(slot, fxb_type, width, self.reader.bitwidth());
        proof {
            if let Ok(reader) = &r {
                use_type_invariant(reader);
            }
        }
        r
    }

    /// Index into a flexbuffer vector. Any errors are defaulted to Null Readers.
    pub fn idx(&self, i: usize) -> (r: Reader<'a>)
        ensures
            r@ == self@.idx(i as int),
            r@.wf(),
    {
        match self.index(i) {
            Ok(r) => r,
            Err(_) => Reader::default(),
        }
    }

    /// Iterates over the elements of the vector, front to back.
    pub fn iter(&self) -> (it: ReaderIterator<'a>)
        ensures
            it@.vector == self@,
            it@.front == 0,
            it@.end == self@.length,
    {
        ReaderIterator::new(self.clone())
    }
}

impl<'a> Clone for VectorReader<'a> {
    fn clone(&self) -> (v: Self)
        ensures
            v@ == self@,
    {
        proof {
            use_type_invariant(self);
        }
        VectorReader { reader: self.reader.clone(), length: self.length }
    }
}

impl<'a> Default for VectorReader<'a> {
    fn default() -> (v: Self)
        ensures
            v@ == (VectorView { reader: null_reader_view(), length: 0 }),
    {
        VectorReader { reader: Reader::default(), length: 0 }
    }
}

} // verus!

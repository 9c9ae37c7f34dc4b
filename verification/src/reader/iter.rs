use super::vector::VectorReader;
use super::vector::VectorView;
use super::{Reader, ReaderView};
use vstd::prelude::*;

verus! {

/// What an iterator over a vector stands for: the vector, and the positions
/// `front..end` of the elements it has not yet handed out.
pub ghost struct IterView {
    pub vector: VectorView,
    pub front: int,
    pub end: int,
}

impl IterView {
    /// The vector stands within its buffer and the positions still to come
    /// lie within the vector.
    pub open spec fn wf(self) -> bool {
        &&& self.vector.wf()
        &&& 0 <= self.front <= self.end <= self.vector.length
    }
}

/// Iterates over the elements of a flexbuffer vector or the values of a map,
/// from either end. Elements that cannot be read come out as null readers.
pub struct ReaderIterator<'a> {
    reader: VectorReader<'a>,
    front: usize,
    end: usize,
}

impl<'a> View for ReaderIterator<'a> {
    type V = IterView;

    closed spec fn view(&self) -> IterView {
        IterView { vector: self.reader@, front: self.front as int, end: self.end as int }
    }
}

impl<'a> ReaderIterator<'a> {
    /// The positions still to come lie within the vector.
    #[verifier::type_invariant]
    closed spec fn in_range(self) -> bool {
        self.front <= self.end <= self.reader@.length
    }

    pub(crate) fn new(reader: VectorReader<'a>) -> (it: Self)
        ensures
            it@.vector == reader@,
            it@.front == 0,
            it@.end == reader@.length,
    {
        let end = reader.len();
        ReaderIterator { reader, front: 0, end }
    }

    /// Returns the number of elements still to come.
    pub fn len(&self) -> (n: usize)
        ensures
            n == self@.end - self@.front,
            self@.wf(),
    {
        proof {
            use_type_invariant(self);
            use_type_invariant(&self.reader);
        }
        self.end - self.front
    }

    /// Hands out the element at the front, if any is left.
    pub fn next(&mut self) -> (r: Option<Reader<'a>>)
        ensures
            final(self)@.vector == old(self)@.vector,
            final(self)@.end == old(self)@.end,
            if old(self)@.front < old(self)@.end {
                &&& r matches Some(reader) && reader@ == old(self)@.vector.idx(old(self)@.front)
                    && reader@.wf()
                &&& final(self)@.front == old(self)@.front + 1
            } else {
                r is None && final(self)@.front == old(self)@.front
            },
    {
        proof {
            use_type_invariant(&*self);
        }
        if self.front < self.end {
            let r = self.reader.idx(self.front);
            self.front = self.front + 1;
            Some(r)
        } else {
            None
        }
    }

    /// Hands out the element at the back, if any is left.
    pub fn next_back(&mut self) -> (r: Option<Reader<'a>>)
        ensures
            final(self)@.vector == old(self)@.vector,
            final(self)@.front == old(self)@.front,
            if old(self)@.front < old(self)@.end {
                &&& r matches Some(reader) && reader@ == old(self)@.vector.idx(old(self)@.end - 1)
                    && reader@.wf()
                &&& final(self)@.end == old(self)@.end - 1
            } else {
                r is None && final(self)@.end == old(self)@.end
            },
    {
        proof {
            use_type_invariant(&*self);
        }
        if self.front < self.end {
            self.end = self.end - 1;
            Some(self.reader.idx(self.end))
        } else {
            None
        }
    }
}

} // verus!

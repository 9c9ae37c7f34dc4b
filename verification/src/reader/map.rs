use super::cursor::{cursor_result, BufferAddress, BufferCursor};
use super::iter::ReaderIterator;
use super::vector::{VectorReader, VectorView};
use super::{
    lex_sign, reader_result, spec_new_reader, spec_unpack_type, unpack_type, CursorView, Error,
    Reader, ReaderView,
};
use crate::bitwidth::BitWidth;
use crate::flexbuffer_type::FlexBufferType;
use std::cmp::Ordering;
use vstd::prelude::*;
use vstd::string::StringSliceAdditionalSpecFns;

verus! {

/// What a map reader stands for: the cursor at its values, the address of its
/// keys vector, the widths of both and its number of entries.
pub ghost struct MapView {
    pub values: CursorView,
    pub keys_addr: int,
    pub values_width: BitWidth,
    pub keys_width: BitWidth,
    pub length: usize,
}

/// The cursor at key `i` of the keys vector at `keys`: the offset in slot `i`
/// points back to it.
pub open spec fn key_at(keys: CursorView, keys_width: BitWidth, i: usize) -> Result<
    CursorView,
    Error,
> {
    match keys.index(i as int, keys_width.spec_n_bytes()) {
        Err(e) => Err(e),
        Ok(slot) => slot.deref_offset(keys_width),
    }
}

/// The bytes of key `i` of the keys vector at `keys`, up to its zero
/// terminator.
#[verifier::opaque]
pub open spec fn key_bytes_at(keys: CursorView, keys_width: BitWidth, i: usize) -> Result<
    Seq<u8>,
    Error,
> {
    match key_at(keys, keys_width, i) {
        Err(e) => Err(e),
        Ok(key) => key.nul_terminated_bytes(),
    }
}

/// The binary search for `target` among keys `low..high` of the keys vector at
/// `keys`: it probes the middle key, and stops at the first key that cannot be
/// read.
pub open spec fn search_keys(
    keys: CursorView,
    keys_width: BitWidth,
    target: Seq<u8>,
    low: usize,
    high: usize,
) -> Result<Option<usize>, Error>
    decreases high - low,
{
    if low < high {
        let i = (low + (high - low) / 2) as usize;
        match key_bytes_at(keys, keys_width, i) {
            Err(e) => Err(e),
            Ok(key) => {
                let sign = lex_sign(key, target);
                if sign == 0 {
                    Ok(Some(i))
                } else if sign < 0 {
                    search_keys(
                        keys,
                        keys_width,
                        target,
                        if i == low {
                            (i + 1) as usize
                        } else {
                            i
                        },
                        high,
                    )
                } else {
                    search_keys(keys, keys_width, target, low, i)
                }
            },
        }
    } else {
        Ok(None)
    }
}

/// The number of keys that the binary search over keys `low..high` probes:
/// one for each pass of its loop, the last of them the one that matches, that
/// cannot be read, or after which no key is left.
pub open spec fn search_probes(
    keys: CursorView,
    keys_width: BitWidth,
    target: Seq<u8>,
    low: usize,
    high: usize,
) -> nat
    decreases high - low,
{
    if low < high {
        let i = (low + (high - low) / 2) as usize;
        match key_bytes_at(keys, keys_width, i) {
            Err(_) => 1,
            Ok(key) => {
                let sign = lex_sign(key, target);
                if sign == 0 {
                    1
                } else if sign < 0 {
                    1 + search_probes(
                        keys,
                        keys_width,
                        target,
                        if i == low {
                            (i + 1) as usize
                        } else {
                            i
                        },
                        high,
                    )
                } else {
                    1 + search_probes(keys, keys_width, target, low, i)
                }
            },
        }
    } else {
        0
    }
}

impl MapView {
    /// The values and the keys vector stand within the buffer, at or before
    /// its end.
    pub open spec fn wf(self) -> bool {
        &&& 0 <= self.values.addr <= self.values.bytes.len()
        &&& 0 <= self.keys_addr <= self.values.bytes.len()
    }

    /// The cursor at the keys vector.
    pub open spec fn keys_cursor(self) -> Result<CursorView, Error> {
        CursorView::at_addr(self.values.bytes, self.keys_addr)
    }

    /// The position of `target` among the keys, found by binary search.
    pub open spec fn try_index_key(self, target: Seq<u8>) -> Result<Option<usize>, Error> {
        match self.keys_cursor() {
            Err(e) => Err(e),
            Ok(keys) => search_keys(keys, self.keys_width, target, 0, self.length),
        }
    }

    /// The number of keys that the search for `target` probes.
    pub open spec fn search_probes(self, target: Seq<u8>) -> nat {
        match self.keys_cursor() {
            Err(_) => 0,
            Ok(keys) => search_probes(keys, self.keys_width, target, 0, self.length),
        }
    }

    /// The position of `target` among the keys, or none where it is not found
    /// or a key cannot be read.
    pub open spec fn index_key(self, target: Seq<u8>) -> Option<usize> {
        match self.try_index_key(target) {
            Ok(found) => found,
            Err(_) => None,
        }
    }

    /// The reader of value `i`: its slot among the values, its packed type in
    /// the type table after the value slots.
    pub open spec fn usize_index(self, i: int) -> Result<ReaderView, Error> {
        if i >= self.length {
            Err(Error::IndexOutOfBounds)
        } else {
            match self.values.index(i, self.values_width.spec_n_bytes()) {
                Err(e) => Err(e),
                Ok(slot) => match self.values.index(
                    self.length as int,
                    self.values_width.spec_n_bytes(),
                ) {
                    Err(e) => Err(e),
                    Ok(table) => match table.add(i) {
                        Err(e) => Err(e),
                        Ok(c) => match c.read_u8() {
                            Err(e) => Err(e),
                            Ok(packed) => match spec_unpack_type(packed) {
                                Err(e) => Err(e),
                                Ok((t, w)) => spec_new_reader(slot, t, w, self.values_width),
                            },
                        },
                    },
                },
            }
        }
    }

    /// The reader of the value whose key is `k`.
    pub open spec fn key_index(self, k: Seq<u8>) -> Result<ReaderView, Error> {
        match self.try_index_key(k) {
            Err(e) => Err(e),
            Ok(None) => Err(Error::KeyNotFound),
            Ok(Some(i)) => self.usize_index(i as int),
        }
    }

    /// The values of the map, read as an untyped vector.
    pub open spec fn values_vector(self) -> VectorView {
        VectorView {
            reader: ReaderView {
                cursor: self.values,
                ty: FlexBufferType::KeyValueMap,
                width: self.values_width,
            },
            length: self.length,
        }
    }

    /// The keys of the map, read as a vector of keys; at an empty buffer where
    /// the keys vector lies past the end of the buffer.
    pub open spec fn keys_vector(self) -> VectorView {
        VectorView {
            reader: ReaderView {
                cursor: match self.keys_cursor() {
                    Ok(c) => c,
                    Err(_) => CursorView { bytes: Seq::empty(), addr: 0 },
                },
                ty: FlexBufferType::VectorKey,
                width: self.keys_width,
            },
            length: self.length,
        }
    }
}

/// Allows indexing on a flexbuffer map.
///
/// MapReaders may be indexed with strings or usizes. `index` returns a result type,
/// which may indicate failure due to a missing key or bad data, `idx` returns an Null Reader in
/// cases of error.
pub struct MapReader<'a> {
    values_cursor: BufferCursor<'a>,
    keys_address: BufferAddress,
    values_width: BitWidth,
    keys_width: BitWidth,
    length: usize,
}

impl<'a> View for MapReader<'a> {
    type V = MapView;

    closed spec fn view(&self) -> MapView {
        MapView {
            values: self.values_cursor@,
            keys_addr: self.keys_address.0 as int,
            values_width: self.values_width,
            keys_width: self.keys_width,
            length: self.length,
        }
    }
}

impl<'a> MapReader<'a> {
    /// A map stands within its buffer.
    #[verifier::type_invariant]
    pub(crate) open spec fn well_formed(self) -> bool {
        self@.wf()
    }

    pub(crate) fn from_parts(
        values_cursor: BufferCursor<'a>,
        keys_address: BufferAddress,
        values_width: BitWidth,
        keys_width: BitWidth,
        length: usize,
    ) -> (m: Self)
        requires
            0 <= values_cursor@.addr <= values_cursor@.bytes.len(),
            keys_address.0 <= values_cursor@.bytes.len(),
        ensures
            m@ == (MapView {
                values: values_cursor@,
                keys_addr: keys_address.0 as int,
                values_width,
                keys_width,
                length,
            }),
    {
        MapReader { values_cursor, keys_address, values_width, keys_width, length }
    }

    /// Returns the number of key/value pairs are in the map.
    pub fn len(&self) -> (n: usize)
        ensures
            n == self@.length,
            self@.wf(),
    {
        proof {
            use_type_invariant(self);
        }
        self.length
    }

    /// Returns true if the map has zero key/value pairs.
    pub fn is_empty(&self) -> (b: bool)
        ensures
            b == (self@.length == 0),
    {
        self.length == 0
    }

    // Using &CStr will eagerly compute the length of the key. &str needs length info AND utf8
    // validation. This version is faster than both.
    fn lazy_strcmp(&self, key_cursor: &BufferCursor<'a>, key: &str) -> (r: Result<Ordering, Error>)
        ensures
            r == key_cursor@.compare_nul_terminated(key.spec_bytes()),
    {
        key_cursor.compare_nul_terminated(key.as_bytes())
    }

    /// Returns the index of a given key in the map.
    pub fn index_key(&self, key: &str) -> (r: Option<usize>)
        ensures
            r == self@.index_key(key.spec_bytes()),
    {
        match self.try_index_key(key).0 {
            Ok(found) => found,
            Err(_) => None,
        }
    }

    /// Finds `target_key` by binary search, and counts the keys it probes.
    fn try_index_key(&self, target_key: &str) -> (r: (Result<Option<usize>, Error>, Ghost<nat>))
        ensures
            r.0 == self@.try_index_key(target_key.spec_bytes()),
            r.1@ == self@.search_probes(target_key.spec_bytes()),
    {
        let mut low: usize = 0;
        let mut high: usize = self.length;
        let key_cursor = match self.values_cursor.at(self.keys_address) {
            Ok(c) => c,
            Err(e) => return (Err(e), Ghost(0)),
        };
        let ghost keys = key_cursor@;
        let ghost target = target_key.spec_bytes();
        let ghost mut probes: nat = 0;
        while low < high
            invariant
                low <= high <= self@.length,
                key_cursor@ == keys,
                target == target_key.spec_bytes(),
                self@.keys_cursor() == Ok::<CursorView, Error>(keys),
                search_keys(keys, self@.keys_width, target, low, high) == search_keys(
                    keys,
                    self@.keys_width,
                    target,
                    0,
                    self@.length,
                ),
                probes + search_probes(keys, self@.keys_width, target, low, high) == search_probes(
                    keys,
                    self@.keys_width,
                    target,
                    0,
                    self@.length,
                ),
            decreases high - low,
        {
            proof {
                reveal(key_bytes_at);
            }
            let i = low + (high - low) / 2;
            let candidate_key_cursor = match self.key_at(&key_cursor, i) {
                Ok(c) => c,
                Err(e) => return (Err(e), Ghost(probes + 1)),
            };
            let order = match self.lazy_strcmp(&candidate_key_cursor, target_key) {
                Ok(o) => o,
                Err(e) => return (Err(e), Ghost(probes + 1)),
            };
            proof {
                probes = probes + 1;
            }
            match order {
                Ordering::Equal => return (Ok(Some(i)), Ghost(probes)),
                Ordering::Less => low = if i == low {
                    i + 1
                } else {
                    i
                },
                Ordering::Greater => high = i,
            }
        }
        (Ok(None), Ghost(probes))
    }

    /// The cursor at key `i` of the keys vector at `key_cursor`.
    fn key_at(&self, key_cursor: &BufferCursor<'a>, i: usize) -> (r: Result<BufferCursor<'a>, Error>)
        ensures
            cursor_result(r) == key_at(key_cursor@, self@.keys_width, i),
    {
        key_cursor.index(i, self.keys_width.n_bytes())?.deref_offset(self.keys_width)
    }

    /// Index into a map with a key or usize.
    pub fn index<I: MapReaderIndexer>(&self, i: I) -> (r: Result<Reader<'a>, Error>)
        ensures
            reader_result(r) == i.spec_index_map(self@),
            r matches Ok(reader) ==> reader@.wf(),
    {
        let r = i.index_map_reader(self);
        proof {
            if let Ok(reader) = &r {
                use_type_invariant(reader);
            }
        }
        r
    }

    /// Index into a map with a key or usize. If any errors occur a Null reader is returned.
    pub fn idx<I: MapReaderIndexer>(&self, i: I) -> (r: Reader<'a>)
        ensures
            r@ == (match i.spec_index_map(self@) {
                Ok(v) => v,
                Err(_) => super::null_reader_view(),
            }),
            r@.wf(),
    {
        match i.index_map_reader(self) {
            Ok(r) => {
                proof {
                    use_type_invariant(&r);
                }
                r
            },
            Err(_) => Reader::default(),
        }
    }

    fn usize_index(&self, i: usize) -> (r: Result<Reader<'a>, Error>)
        ensures
            reader_result(r) == self@.usize_index(i as int),
    {
        if i >= self.length {
            return Err(Error::IndexOutOfBounds);
        }
        let data_cursor = self.values_cursor.index(i, self.values_width.n_bytes())?;
        let type_cursor = self.values_cursor.index(self.length, self.values_width.n_bytes())?.add(
            i,
        )?;
        let (fxb_type, width) = unpack_type(type_cursor.read_u8()?)?;
        Reader::new(data_cursor, fxb_type, width, self.values_width)
    }

    fn key_index(&self, k: &str) -> (r: Result<Reader<'a>, Error>)
        ensures
            reader_result(r) == self@.key_index(k.spec_bytes()),
    {
        let i = match self.try_index_key(k).0? {
            Some(i) => i,
            None => return Err(Error::KeyNotFound),
        };
        self.usize_index(i)
    }

    /// Iterate over the values of the map.
    pub fn iter_values(&self) -> (it: ReaderIterator<'a>)
        ensures
            it@.vector == self@.values_vector(),
            it@.front == 0,
            it@.end == self@.length,
    {
        proof {
            use_type_invariant(self);
        }
        ReaderIterator::new(
            VectorReader::from_parts(
                Reader::direct(
                    self.values_cursor.clone(),
                    FlexBufferType::KeyValueMap,
                    self.values_width,
                ),
                self.length,
            ),
        )
    }

    /// Iterate over the keys of the map.
    pub fn iter_keys(&self) -> (it: KeyIterator<'a>)
        ensures
            it@.vector == self@.keys_vector(),
            it@.front == 0,
            it@.end == self@.length,
    {
        KeyIterator { values: self.keys_vector().iter() }
    }

    pub fn keys_vector(&self) -> (v: VectorReader<'a>)
        ensures
            v@ == self@.keys_vector(),
    {
        let keys_cursor = match self.values_cursor.at(self.keys_address) {
            Ok(c) => c,
            Err(_) => BufferCursor::default(),
        };
        VectorReader::from_parts(
            Reader::direct(keys_cursor, FlexBufferType::VectorKey, self.keys_width),
            self.length,
        )
    }
}

impl<'a> Clone for MapReader<'a> {
    fn clone(&self) -> (m: Self)
        ensures
            m@ == self@,
    {
        proof {
            use_type_invariant(self);
        }
        MapReader {
            values_cursor: self.values_cursor.clone(),
            keys_address: self.keys_address,
            values_width: self.values_width,
            keys_width: self.keys_width,
            length: self.length,
        }
    }
}

impl<'a> Default for MapReader<'a> {
    /// The map with no entries, at address 0 of an empty buffer.
    fn default() -> (m: Self)
        ensures
            m@ == (MapView {
                values: CursorView { bytes: Seq::empty(), addr: 0 },
                keys_addr: 0,
                values_width: BitWidth::W8,
                keys_width: BitWidth::W8,
                length: 0,
            }),
    {
        let values_cursor = BufferCursor::default();
        let keys_address = values_cursor.address();
        MapReader {
            values_cursor,
            keys_address,
            values_width: BitWidth::W8,
            keys_width: BitWidth::W8,
            length: 0,
        }
    }
}

/// Iterates over the keys of a map, from either end. A key that cannot be read
/// comes out as the empty string.
pub struct KeyIterator<'a> {
    values: ReaderIterator<'a>,
}

impl<'a> View for KeyIterator<'a> {
    type V = super::IterView;

    closed spec fn view(&self) -> super::IterView {
        self.values@
    }
}

impl<'a> KeyIterator<'a> {
    /// Returns the number of keys still to come.
    pub fn len(&self) -> (n: usize)
        ensures
            n == self@.end - self@.front,
            self@.wf(),
    {
        self.values.len()
    }

    /// Hands out the key at the front, if any is left.
    pub fn next(&mut self) -> (r: Option<&'a str>)
        ensures
            final(self)@.vector == old(self)@.vector,
            final(self)@.end == old(self)@.end,
            if old(self)@.front < old(self)@.end {
                &&& r matches Some(k) && k@ == old(self)@.vector.idx(old(self)@.front).as_str()
                &&& final(self)@.front == old(self)@.front + 1
            } else {
                r is None && final(self)@.front == old(self)@.front
            },
    {
        match self.values.next() {
            Some(r) => Some(r.as_str()),
            None => None,
        }
    }

    /// Hands out the key at the back, if any is left.
    pub fn next_back(&mut self) -> (r: Option<&'a str>)
        ensures
            final(self)@.vector == old(self)@.vector,
            final(self)@.front == old(self)@.front,
            if old(self)@.front < old(self)@.end {
                &&& r matches Some(k) && k@ == old(self)@.vector.idx(old(self)@.end - 1).as_str()
                &&& final(self)@.end == old(self)@.end - 1
            } else {
                r is None && final(self)@.end == old(self)@.end
            },
    {
        match self.values.next_back() {
            Some(r) => Some(r.as_str()),
            None => None,
        }
    }
}

/// What a map can be indexed with: a position or a key.
pub trait MapReaderIndexer {
    /// The reader that indexing the map `m` with `self` gives, or its error.
    spec fn spec_index_map(&self, m: MapView) -> Result<ReaderView, Error>;

    fn index_map_reader<'a>(self, r: &MapReader<'a>) -> (res: Result<Reader<'a>, Error>)
        ensures
            reader_result(res) == self.spec_index_map(r@),
    ;
}

impl MapReaderIndexer for usize {
    open spec fn spec_index_map(&self, m: MapView) -> Result<ReaderView, Error> {
        m.usize_index(*self as int)
    }

    fn index_map_reader<'a>(self, r: &MapReader<'a>) -> (res: Result<Reader<'a>, Error>) {
        r.usize_index(self)
    }
}

impl<'k> MapReaderIndexer for &'k str {
    open spec fn spec_index_map(&self, m: MapView) -> Result<ReaderView, Error> {
        m.key_index(self.spec_bytes())
    }

    fn index_map_reader<'a>(self, r: &MapReader<'a>) -> (res: Result<Reader<'a>, Error>) {
        r.key_index(self)
    }
}

} // verus!

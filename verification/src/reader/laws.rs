use super::map::{key_at, key_bytes_at, search_keys, search_probes, MapView};
use super::vector::VectorView;
use super::{
    any_nonzero, chars_or_empty, is_nul_distance, le_value, lemma_nul_distance_unique, lex_sign,
    pow2, signed_value, spec_get_root, spec_new_reader,
    spec_unpack_type, CursorView, Error, ReaderView,
};
use crate::bitwidth::BitWidth;
use crate::flexbuffer_type::FlexBufferType;
use vstd::prelude::*;
use vstd::utf8::{decode_utf8, decode_utf8_encode_utf8, encode_utf8, valid_utf8};

verus! {

/// `c` is a position in `bytes` at or before its end.
pub open spec fn in_buffer(c: CursorView, bytes: Seq<u8>) -> bool {
    c.bytes == bytes && 0 <= c.addr <= bytes.len()
}

/// A packed type byte gives back the type and the width packed into it.
pub proof fn lemma_unpack_packed_type(t: FlexBufferType, w: BitWidth)
    ensures
        spec_unpack_type((t.spec_code() * 4 + w.spec_code()) as u8) == Ok::<
            (FlexBufferType, BitWidth),
            Error,
        >((t, w)),
{
    crate::flexbuffer_type::lemma_type_code_roundtrip(t, 0);
    crate::bitwidth::lemma_bitwidth_roundtrip(w);
    let b = (t.spec_code() * 4 + w.spec_code()) as u8;
    assert(b / 4 == t.spec_code() && b % 4 == w.spec_code());
}

/// A reader made from a position in the buffer stands at a position in the
/// same buffer, and never for an indirect value.
pub proof fn lemma_new_reader_in_buffer(
    c: CursorView,
    ty: FlexBufferType,
    width: BitWidth,
    parent_width: BitWidth,
)
    requires
        0 <= c.addr <= c.bytes.len(),
    ensures
        spec_new_reader(c, ty, width, parent_width) matches Ok(r) ==> in_buffer(
            r.cursor,
            c.bytes,
        ) && r.ty.spec_to_direct().is_none() && r.width == width,
{
}

/// The root of a buffer, where it can be read, stands at a position in that
/// buffer.
pub proof fn lemma_root_in_buffer(bytes: Seq<u8>)
    ensures
        spec_get_root(bytes) matches Ok(r) ==> in_buffer(r.cursor, bytes)
            && r.ty.spec_to_direct().is_none(),
{
    let len = bytes.len() as int;
    if len >= 3 {
        if let Some(rw) = BitWidth::spec_from_nbytes(bytes[len - 1] as int) {
            if let Ok((ty, width)) = spec_unpack_type(bytes[len - 2]) {
                if let Ok(root) = (CursorView { bytes, addr: len - 2 }).sub(rw.spec_n_bytes()) {
                    lemma_new_reader_in_buffer(root, ty, width, rw);
                }
            }
        }
    }
}

/// Each element of a vector that stands in the buffer stands in the buffer
/// too.
pub proof fn lemma_vector_element_in_buffer(v: VectorView, i: int)
    requires
        0 <= v.reader.cursor.addr <= v.reader.cursor.bytes.len(),
    ensures
        v.index(i) matches Ok(r) ==> in_buffer(r.cursor, v.reader.cursor.bytes)
            && r.ty.spec_to_direct().is_none(),
{
    if i < v.length {
        if let Ok(slot) = v.reader.cursor.index(i, v.reader.width.spec_n_bytes()) {
            if let Ok((t, w)) = v.elem_type(i) {
                lemma_new_reader_in_buffer(slot, t, w, v.reader.width);
            }
        }
    }
}

/// Each value of a map that stands in the buffer stands in the buffer too.
pub proof fn lemma_map_value_in_buffer(m: MapView, i: int)
    requires
        0 <= m.values.addr <= m.values.bytes.len(),
    ensures
        m.usize_index(i) matches Ok(r) ==> in_buffer(r.cursor, m.values.bytes)
            && r.ty.spec_to_direct().is_none(),
{
    if i < m.length {
        if let Ok(slot) = m.values.index(i, m.values_width.spec_n_bytes()) {
            if let Ok(table) = m.values.index(m.length as int, m.values_width.spec_n_bytes()) {
                if let Ok(c) = table.add(i) {
                    if let Ok(packed) = c.read_u8() {
                        if let Ok((t, w)) = spec_unpack_type(packed) {
                            lemma_new_reader_in_buffer(slot, t, w, m.values_width);
                        }
                    }
                }
            }
        }
    }
}

/// A `get_T` read succeeds exactly where the value has type `T` and the bytes
/// it needs lie in the buffer; on a value of another type it fails with
/// `UnexpectedFlexbufferType`.
pub proof fn lemma_get_checks_type(v: ReaderView)
    ensures
        v.get_u64() is Ok <==> v.ty == FlexBufferType::UInt && 0 <= v.cursor.addr && v.cursor.addr
            + v.width.spec_n_bytes() <= v.cursor.bytes.len(),
        v.get_i64() is Ok <==> v.ty == FlexBufferType::Int && 0 <= v.cursor.addr && v.cursor.addr
            + v.width.spec_n_bytes() <= v.cursor.bytes.len(),
        v.get_bool() is Ok <==> v.ty == FlexBufferType::Bool && 0 <= v.cursor.addr && v.cursor.addr
            + v.width.spec_n_bytes() <= v.cursor.bytes.len(),
        v.ty != FlexBufferType::UInt ==> v.get_u64() == Err::<u64, Error>(
            Error::UnexpectedFlexbufferType { expected: FlexBufferType::UInt, actual: v.ty },
        ),
        v.ty != FlexBufferType::Int ==> v.get_i64() == Err::<i64, Error>(
            Error::UnexpectedFlexbufferType { expected: FlexBufferType::Int, actual: v.ty },
        ),
        v.ty != FlexBufferType::Bool ==> v.get_bool() == Err::<bool, Error>(
            Error::UnexpectedFlexbufferType { expected: FlexBufferType::Bool, actual: v.ty },
        ),
        v.ty != FlexBufferType::Key ==> v.key_bytes() == Err::<Seq<u8>, Error>(
            Error::UnexpectedFlexbufferType { expected: FlexBufferType::Key, actual: v.ty },
        ),
        v.ty != FlexBufferType::String ==> v.length_prefixed_bytes(FlexBufferType::String)
            == Err::<Seq<u8>, Error>(
            Error::UnexpectedFlexbufferType { expected: FlexBufferType::String, actual: v.ty },
        ),
        v.ty != FlexBufferType::Blob ==> v.length_prefixed_bytes(FlexBufferType::Blob) == Err::<
            Seq<u8>,
            Error,
        >(Error::UnexpectedFlexbufferType { expected: FlexBufferType::Blob, actual: v.ty }),
        v.ty != FlexBufferType::KeyValueMap ==> v.get_map() == Err::<MapView, Error>(
            Error::UnexpectedFlexbufferType { expected: FlexBufferType::KeyValueMap, actual: v.ty },
        ),
        !v.ty.spec_is_vector() ==> v.get_vector() == Err::<VectorView, Error>(
            Error::UnexpectedFlexbufferType { expected: FlexBufferType::Vector, actual: v.ty },
        ),
{
}

/// A byte string is equal to itself in the lexicographic order.
pub proof fn lemma_lex_sign_reflexive(a: Seq<u8>)
    ensures
        lex_sign(a, a) == 0,
    decreases a.len(),
{
    if a.len() > 0 {
        lemma_lex_sign_reflexive(a.drop_first());
    }
}

/// Swapping two byte strings flips the sign of their order.
pub proof fn lemma_lex_sign_antisymmetric(a: Seq<u8>, b: Seq<u8>)
    ensures
        lex_sign(a, b) == -lex_sign(b, a),
        -1 <= lex_sign(a, b) <= 1,
    decreases a.len(),
{
    if a.len() > 0 && b.len() > 0 && a[0] == b[0] {
        lemma_lex_sign_antisymmetric(a.drop_first(), b.drop_first());
    }
}

/// Byte strings are in the order's sign zero exactly where they are equal.
pub proof fn lemma_lex_sign_zero_equal(a: Seq<u8>, b: Seq<u8>)
    ensures
        lex_sign(a, b) == 0 <==> a == b,
    decreases a.len(),
{
    if a.len() == 0 && b.len() == 0 {
        assert(a =~= b);
    } else if a.len() > 0 && b.len() > 0 && a[0] == b[0] {
        lemma_lex_sign_zero_equal(a.drop_first(), b.drop_first());
        if a.drop_first() == b.drop_first() {
            assert(a =~= seq![a[0]] + a.drop_first());
            assert(b =~= seq![b[0]] + b.drop_first());
        }
        if a == b {
            assert(a.drop_first() =~= b.drop_first());
        }
    }
}

/// Every key of the map can be read.
pub open spec fn keys_readable(m: MapView) -> bool {
    &&& m.keys_cursor() is Ok
    &&& forall|i: usize|
        i < m.length ==> #[trigger] key_bytes_at(m.keys_cursor()->Ok_0, m.keys_width, i) is Ok
}

/// Key `i` of the map, where it can be read.
pub open spec fn key_of(m: MapView, i: usize) -> Seq<u8> {
    key_bytes_at(m.keys_cursor()->Ok_0, m.keys_width, i)->Ok_0
}

/// The keys of the map stand in strictly increasing lexicographic order, as
/// the format has them.
pub open spec fn keys_sorted(m: MapView) -> bool {
    forall|i: usize, j: usize|
        i < j < m.length ==> lex_sign(#[trigger] key_of(m, i), #[trigger] key_of(m, j)) < 0
}

/// A key before one that comes before `target` is not `target`.
proof fn lemma_below_not_target(m: MapView, target: Seq<u8>, i: usize, j: usize)
    requires
        keys_sorted(m),
        j < i < m.length,
        lex_sign(key_of(m, i), target) < 0,
    ensures
        key_of(m, j) != target,
{
    assert(lex_sign(key_of(m, j), key_of(m, i)) < 0);
    lemma_lex_sign_antisymmetric(key_of(m, i), target);
}

/// A key after one that comes after `target` is not `target`.
proof fn lemma_above_not_target(m: MapView, target: Seq<u8>, i: usize, j: usize)
    requires
        keys_sorted(m),
        i < j < m.length,
        lex_sign(key_of(m, i), target) > 0,
    ensures
        key_of(m, j) != target,
{
    assert(lex_sign(key_of(m, i), key_of(m, j)) < 0);
}

/// The binary search over keys `low..high` finds `target` where it is one of
/// them, and finds nothing where it is not.
proof fn lemma_search_sorted(m: MapView, target: Seq<u8>, low: usize, high: usize)
    requires
        keys_readable(m),
        keys_sorted(m),
        low <= high <= m.length,
    ensures
        match search_keys(m.keys_cursor()->Ok_0, m.keys_width, target, low, high) {
            Ok(Some(i)) => low <= i < high && key_of(m, i) == target,
            Ok(None) => forall|j: usize| low <= j < high ==> key_of(m, j) != target,
            Err(_) => false,
        },
    decreases high - low,
{
    let keys = m.keys_cursor()->Ok_0;
    if low < high {
        let i = (low + (high - low) / 2) as usize;
        assert(key_bytes_at(keys, m.keys_width, i) is Ok);
        let key = key_of(m, i);
        let sign = lex_sign(key, target);
        lemma_lex_sign_zero_equal(key, target);
        if sign < 0 {
            let next_low = if i == low {
                (i + 1) as usize
            } else {
                i
            };
            lemma_search_sorted(m, target, next_low, high);
            assert forall|j: usize| low <= j < next_low implies key_of(m, j) != target by {
                if j < i {
                    lemma_below_not_target(m, target, i, j);
                }
            }
        } else if sign > 0 {
            lemma_search_sorted(m, target, low, i);
            assert forall|j: usize| i <= j < high implies key_of(m, j) != target by {
                if i < j {
                    lemma_above_not_target(m, target, i, j);
                }
            }
        }
    }
}

/// On a map whose keys can all be read and stand in order, `index_key` finds
/// the position of a key that the map holds, finds nothing for one it does
/// not hold, and never fails.
pub proof fn lemma_index_key_sorted(m: MapView, target: Seq<u8>)
    requires
        keys_readable(m),
        keys_sorted(m),
    ensures
        match m.try_index_key(target) {
            Ok(Some(i)) => i < m.length && key_of(m, i) == target,
            Ok(None) => forall|j: usize| j < m.length ==> key_of(m, j) != target,
            Err(_) => false,
        },
        m.index_key(target) matches Some(i) ==> i < m.length && key_of(m, i) == target,
        m.index_key(target) is None ==> forall|j: usize| j < m.length ==> key_of(m, j) != target,
{
    lemma_search_sorted(m, target, 0, m.length);
}

/// On such a map, indexing by the key at position `i` gives the value at
/// position `i`.
pub proof fn lemma_index_by_own_key(m: MapView, i: usize)
    requires
        keys_readable(m),
        keys_sorted(m),
        i < m.length,
    ensures
        m.key_index(key_of(m, i)) == m.usize_index(i as int),
{
    let target = key_of(m, i);
    lemma_index_key_sorted(m, target);
    if let Ok(Some(j)) = m.try_index_key(target) {
        if j != i {
            lemma_lex_sign_reflexive(target);
            if j < i {
                assert(lex_sign(key_of(m, j), key_of(m, i)) < 0);
            } else {
                assert(lex_sign(key_of(m, i), key_of(m, j)) < 0);
            }
        }
    }
}

/// Indexing by a key gives the value at the position that `index_key` finds
/// for it.
pub proof fn lemma_key_index_agrees(m: MapView, k: Seq<u8>)
    ensures
        m.key_index(k) matches Ok(r) ==> m.index_key(k) matches Some(i) && m.usize_index(i as int)
            == Ok::<ReaderView, Error>(r),
        m.index_key(k) is None ==> m.key_index(k) is Err,
{
}

/// A boolean within its buffer is true exactly where some byte of its slot,
/// `width` bytes from its address on, is not zero; a slot that runs past the
/// end of the buffer cannot be read, and any other type is refused.
pub proof fn lemma_get_bool_bytes(v: ReaderView)
    requires
        v.wf(),
    ensures
        v.ty != FlexBufferType::Bool ==> v.get_bool() == Err::<bool, Error>(
            Error::UnexpectedFlexbufferType { expected: FlexBufferType::Bool, actual: v.ty },
        ),
        v.ty == FlexBufferType::Bool && v.cursor.addr + v.width.spec_n_bytes()
            <= v.cursor.bytes.len() ==> v.get_bool() == Ok::<bool, Error>(
            any_nonzero(
                v.cursor.bytes.subrange(v.cursor.addr, v.cursor.addr + v.width.spec_n_bytes()),
            ),
        ),
        v.ty == FlexBufferType::Bool && v.cursor.addr + v.width.spec_n_bytes()
            > v.cursor.bytes.len() ==> v.get_bool() == Err::<bool, Error>(
            Error::FlexbufferOutOfBounds,
        ),
{
}

/// `256` to the power `n`.
pub open spec fn pow256(n: nat) -> nat
    decreases n,
{
    if n == 0 {
        1
    } else {
        256 * pow256((n - 1) as nat)
    }
}

/// A little-endian number of `n` bytes is below `256` to the power `n`.
pub proof fn lemma_le_value_bound(s: Seq<u8>)
    ensures
        le_value(s) < pow256(s.len()),
    decreases s.len(),
{
    if s.len() > 0 {
        lemma_le_value_bound(s.drop_first());
        let x = le_value(s.drop_first());
        let p = pow256(s.drop_first().len());
        assert(s[0] as nat + 256 * x < 256 * p) by (nonlinear_arith)
            requires
                s[0] < 256,
                x < p,
        ;
    }
}

/// The length of a value within its buffer: that of its type for a fixed
/// length vector; for a value with a length slot, the little-endian number in
/// the `width` bytes just before its address where they lie in the buffer and
/// it fits in a `usize`, and 0 otherwise; 0 for every other type.
pub proof fn lemma_length_slot(v: ReaderView)
    requires
        v.wf(),
    ensures
        v.length() == (match v.ty.spec_fixed_length_vector_length() {
            Some(n) => n,
            None => if v.ty.spec_has_length_slot() && v.cursor.addr >= v.width.spec_n_bytes()
                && le_value(
                v.cursor.bytes.subrange(v.cursor.addr - v.width.spec_n_bytes(), v.cursor.addr),
            ) <= usize::MAX {
                le_value(
                    v.cursor.bytes.subrange(v.cursor.addr - v.width.spec_n_bytes(), v.cursor.addr),
                ) as usize
            } else {
                0
            },
        }),
{
    let n = v.width.spec_n_bytes();
    if v.cursor.addr >= n {
        let s = v.cursor.bytes.subrange(v.cursor.addr - n, v.cursor.addr);
        lemma_le_value_bound(s);
        reveal_with_fuel(pow256, 9);
        assert(pow256(8) == 0x1_0000_0000_0000_0000);
        assert(le_value(s) <= u64::MAX);
    }
}

/// A map within its buffer with no entries finds no key, and has no value at
/// any position.
pub proof fn lemma_empty_map_finds_nothing(m: MapView, k: Seq<u8>, i: int)
    requires
        m.wf(),
        m.length == 0,
        i >= 0,
    ensures
        m.try_index_key(k) == Ok::<Option<usize>, Error>(None),
        m.index_key(k) is None,
        m.key_index(k) == Err::<ReaderView, Error>(Error::KeyNotFound),
        m.usize_index(i) == Err::<ReaderView, Error>(Error::IndexOutOfBounds),
{
}

/// The key that the keys vector of a map holds at position `i` reads as the
/// characters that the bytes of key `i` decode to, or as the empty string
/// where they cannot be read or decoded.
pub proof fn lemma_keys_vector_key(m: MapView, i: usize)
    requires
        m.wf(),
        i < m.length,
    ensures
        m.keys_vector().idx(i as int).as_str() == chars_or_empty(
            key_bytes_at(m.keys_cursor()->Ok_0, m.keys_width, i),
        ),
{
    reveal(key_bytes_at);
    let kc = m.keys_cursor()->Ok_0;
    let v = m.keys_vector();
    assert(v.reader.cursor == kc);
    match key_at(kc, m.keys_width, i) {
        Ok(key) => {
            assert(v.index(i as int) == Ok::<ReaderView, Error>(
                ReaderView { cursor: key, ty: FlexBufferType::Key, width: m.keys_width },
            ));
        },
        Err(e) => {
            assert(v.index(i as int) is Err);
        },
    }
}

/// On a map whose keys can all be read and stand in order, each key that
/// `iter_keys` hands out, where its bytes are valid UTF-8, is the key at its
/// position: `index_key` finds that position for it, and indexing by it gives
/// the value at that position.
pub proof fn lemma_iter_key_indexes_back(m: MapView, i: usize)
    requires
        m.wf(),
        keys_readable(m),
        keys_sorted(m),
        i < m.length,
        valid_utf8(key_of(m, i)),
    ensures
        encode_utf8(m.keys_vector().idx(i as int).as_str()) == key_of(m, i),
        m.index_key(encode_utf8(m.keys_vector().idx(i as int).as_str())) == Some(i),
        m.key_index(encode_utf8(m.keys_vector().idx(i as int).as_str())) == m.usize_index(
            i as int,
        ),
{
    lemma_keys_vector_key(m, i);
    let b = key_of(m, i);
    assert(key_bytes_at(m.keys_cursor()->Ok_0, m.keys_width, i) is Ok);
    decode_utf8_encode_utf8(b);
    lemma_index_key_sorted(m, b);
    lemma_index_by_own_key(m, i);
    if let Ok(Some(j)) = m.try_index_key(b) {
        if j != i {
            lemma_lex_sign_reflexive(b);
            if j < i {
                assert(lex_sign(key_of(m, j), key_of(m, i)) < 0);
            } else {
                assert(lex_sign(key_of(m, i), key_of(m, j)) < 0);
            }
        }
    }
}

/// The widths of the two's complement reads: `2` to the power 8, 16, 32 and
/// 64, and the value of a pattern of each width whose top bit is set is the
/// pattern less that power.
pub proof fn lemma_signed_value_widths(v: nat)
    ensures
        pow2(8) == 0x100,
        pow2(16) == 0x1_0000,
        pow2(32) == 0x1_0000_0000,
        pow2(64) == 0x1_0000_0000_0000_0000,
        v < 0x100 ==> signed_value(v, 8) == (if v >= 0x80 {
            v - 0x100
        } else {
            v as int
        }),
        v < 0x1_0000 ==> signed_value(v, 16) == (if v >= 0x8000 {
            v - 0x1_0000
        } else {
            v as int
        }),
        v < 0x1_0000_0000 ==> signed_value(v, 32) == (if v >= 0x8000_0000 {
            v - 0x1_0000_0000
        } else {
            v as int
        }),
        v < 0x1_0000_0000_0000_0000 ==> signed_value(v, 64) == (if v >= 0x8000_0000_0000_0000 {
            v - 0x1_0000_0000_0000_0000
        } else {
            v as int
        }),
{
    reveal_with_fuel(pow2, 65);
}

/// A cursor stands at `addr` exactly where `addr` is at or before the end of
/// the buffer.
pub proof fn lemma_cursor_at_addr(bytes: Seq<u8>, addr: int)
    ensures
        CursorView::at_addr(bytes, addr) is Ok <==> 0 <= addr <= bytes.len(),
        CursorView::at_addr(bytes, addr) matches Ok(c) ==> c == (CursorView { bytes, addr }),
        !(0 <= addr <= bytes.len()) ==> CursorView::at_addr(bytes, addr) == Err::<
            CursorView,
            Error,
        >(Error::FlexbufferOutOfBounds),
{
}

/// Every cursor that a move gives stays in the buffer it moved in.
pub proof fn lemma_cursor_moves_stay_in_buffer(
    c: CursorView,
    offset: int,
    index: int,
    stride: int,
    w: BitWidth,
)
    ensures
        c.add(offset) matches Ok(d) ==> in_buffer(d, c.bytes),
        c.sub(offset) matches Ok(d) ==> in_buffer(d, c.bytes),
        c.index(index, stride) matches Ok(d) ==> in_buffer(d, c.bytes),
        c.deref_offset(w) matches Ok(d) ==> in_buffer(d, c.bytes),
{
}

/// The `len` bytes from a cursor are those from its address on where they
/// all lie in the buffer, and out of bounds otherwise, however large `len`.
pub proof fn lemma_cursor_bytes(c: CursorView, len: int)
    requires
        0 <= c.addr <= c.bytes.len(),
        len >= 0,
    ensures
        c.bytes(len) == (if c.addr + len <= c.bytes.len() {
            Ok::<Seq<u8>, Error>(c.bytes.subrange(c.addr, c.addr + len))
        } else {
            Err::<Seq<u8>, Error>(Error::FlexbufferOutOfBounds)
        }),
{
}

/// A key's length is the distance to the first zero byte at or after the
/// cursor; where no byte from the cursor on is zero, it is out of bounds.
pub proof fn lemma_nul_terminated_len(c: CursorView, n: int)
    ensures
        is_nul_distance(c.bytes, c.addr, n) ==> c.nul_terminated_len() == Ok::<usize, Error>(
            n as usize,
        ),
        (forall|j: int| c.addr <= j < c.bytes.len() ==> c.bytes[j] != 0)
            ==> c.nul_terminated_len() == Err::<usize, Error>(Error::FlexbufferOutOfBounds),
{
    if is_nul_distance(c.bytes, c.addr, n) {
        let m = choose|m: int| is_nul_distance(c.bytes, c.addr, m);
        lemma_nul_distance_unique(c.bytes, c.addr, n, m);
    }
    if forall|j: int| c.addr <= j < c.bytes.len() ==> c.bytes[j] != 0 {
        assert forall|m: int| !is_nul_distance(c.bytes, c.addr, m) by {
            if is_nul_distance(c.bytes, c.addr, m) {
                assert(c.bytes[c.addr + m] == 0);
            }
        }
    }
}

/// What the binary search over keys `low..high` finds is one of them, and it
/// equals `target`.
proof fn lemma_search_found(
    keys: CursorView,
    keys_width: BitWidth,
    target: Seq<u8>,
    low: usize,
    high: usize,
)
    ensures
        search_keys(keys, keys_width, target, low, high) matches Ok(Some(i)) ==> low <= i < high
            && key_bytes_at(keys, keys_width, i) == Ok::<Seq<u8>, Error>(target),
    decreases high - low,
{
    if low < high {
        let i = (low + (high - low) / 2) as usize;
        if let Ok(key) = key_bytes_at(keys, keys_width, i) {
            lemma_lex_sign_zero_equal(key, target);
            let next_low = if i == low {
                (i + 1) as usize
            } else {
                i
            };
            lemma_search_found(keys, keys_width, target, next_low, high);
            lemma_search_found(keys, keys_width, target, low, i);
        }
    }
}

/// On any map, well formed or not, a position that the search for `target`
/// finds holds a key equal to `target`.
pub proof fn lemma_found_key_matches(m: MapView, target: Seq<u8>)
    ensures
        m.try_index_key(target) matches Ok(Some(i)) ==> i < m.length && key_bytes_at(
            m.keys_cursor()->Ok_0,
            m.keys_width,
            i,
        ) == Ok::<Seq<u8>, Error>(target),
{
    if let Ok(keys) = m.keys_cursor() {
        lemma_search_found(keys, m.keys_width, target, 0, m.length);
    }
}

/// The number of halvings, rounding up, that bring `n` down to 1: the
/// logarithm of `n` to base 2, rounded up.
pub open spec fn ceil_log2(n: nat) -> nat
    decreases n,
{
    if n <= 1 {
        0
    } else {
        1 + ceil_log2(((n + 1) / 2) as nat)
    }
}

/// `ceil_log2(n)` is the least `k` with `n <= 2^k`.
pub proof fn lemma_ceil_log2_bounds(n: nat)
    requires
        n >= 1,
    ensures
        n <= pow2(ceil_log2(n)),
        n >= 2 ==> pow2((ceil_log2(n) - 1) as nat) < n,
    decreases n,
{
    if n >= 2 {
        let m = ((n + 1) / 2) as nat;
        lemma_ceil_log2_bounds(m);
        assert(pow2(ceil_log2(n)) == 2 * pow2(ceil_log2(m)));
        if m >= 2 {
            assert(pow2(ceil_log2(m)) == 2 * pow2((ceil_log2(m) - 1) as nat));
        }
    }
}

/// `ceil_log2` grows with its argument.
proof fn lemma_ceil_log2_monotone(a: nat, b: nat)
    requires
        a <= b,
    ensures
        ceil_log2(a) <= ceil_log2(b),
    decreases b,
{
    if a >= 2 {
        lemma_ceil_log2_monotone(((a + 1) / 2) as nat, ((b + 1) / 2) as nat);
    }
}

/// The binary search over `n` keys probes at most `ceil_log2(n) + 1` of them.
pub proof fn lemma_search_probes_bound(
    keys: CursorView,
    keys_width: BitWidth,
    target: Seq<u8>,
    low: usize,
    high: usize,
)
    requires
        low <= high,
    ensures
        low == high ==> search_probes(keys, keys_width, target, low, high) == 0,
        low < high ==> search_probes(keys, keys_width, target, low, high) <= ceil_log2(
            (high - low) as nat,
        ) + 1,
    decreases high - low,
{
    if low < high {
        let n = (high - low) as nat;
        let i = (low + (high - low) / 2) as usize;
        if let Ok(key) = key_bytes_at(keys, keys_width, i) {
            let sign = lex_sign(key, target);
            if sign < 0 {
                if i == low {
                    assert(n == 1);
                    lemma_search_probes_bound(keys, keys_width, target, (i + 1) as usize, high);
                } else {
                    lemma_search_probes_bound(keys, keys_width, target, i, high);
                    assert(high - i == (n + 1) / 2);
                }
            } else if sign > 0 {
                lemma_search_probes_bound(keys, keys_width, target, low, i);
                if i > low {
                    lemma_ceil_log2_monotone((i - low) as nat, ((n + 1) / 2) as nat);
                }
            }
        }
    }
}

/// A search in a map probes no key where the map has none, and at most
/// `ceil_log2(n) + 1` of its `n` keys otherwise.
pub proof fn lemma_map_search_probes(m: MapView, target: Seq<u8>)
    ensures
        m.length == 0 ==> m.search_probes(target) == 0,
        m.length > 0 ==> m.search_probes(target) <= ceil_log2(m.length as nat) + 1,
{
    if let Ok(keys) = m.keys_cursor() {
        lemma_search_probes_bound(keys, m.keys_width, target, 0, m.length);
    }
}

} // verus!

use super::laws::{lemma_le_value_bound, pow256};
use super::map::{key_at, MapView};
use super::slice::ReadLE;
use super::vector::VectorView;
use super::{
    direct_type, le_value, null_reader_view, pow2, signed_value, spec_get_root, spec_parse_i64, spec_parse_u64,
    spec_unpack_type, CursorView, Error, ReaderView,
};
use crate::bitwidth::BitWidth;
use crate::flexbuffer_type::FlexBufferType;
use vstd::prelude::*;

verus! {

/// The unsigned little-endian number in the `n` bytes of `bytes` from
/// `start` on.
pub open spec fn le_at(bytes: Seq<u8>, start: int, n: int) -> nat {
    le_value(bytes.subrange(start, start + n))
}

/// An integer of width `w` at a cursor is the little-endian number in the
/// `w` bytes from the cursor on, where they lie in the buffer; it fits in a
/// `u64`, and in a `usize` exactly where it is not above `usize::MAX`.
pub proof fn lemma_read_at(c: CursorView, w: BitWidth)
    ensures
        0 <= c.addr && c.addr + w.spec_n_bytes() <= c.bytes.len() ==> le_at(
            c.bytes,
            c.addr,
            w.spec_n_bytes(),
        ) <= u64::MAX,
        c.read_u64(w) == (if 0 <= c.addr && c.addr + w.spec_n_bytes() <= c.bytes.len() {
            Ok::<u64, Error>(le_at(c.bytes, c.addr, w.spec_n_bytes()) as u64)
        } else {
            Err::<u64, Error>(Error::FlexbufferOutOfBounds)
        }),
        c.read_usize(w) == (if 0 <= c.addr && c.addr + w.spec_n_bytes() <= c.bytes.len() {
            if le_at(c.bytes, c.addr, w.spec_n_bytes()) <= usize::MAX {
                Ok::<usize, Error>(le_at(c.bytes, c.addr, w.spec_n_bytes()) as usize)
            } else {
                Err::<usize, Error>(Error::ReadUsizeOverflowed)
            }
        } else {
            Err::<usize, Error>(Error::FlexbufferOutOfBounds)
        }),
{
    let n = w.spec_n_bytes();
    if 0 <= c.addr && c.addr + n <= c.bytes.len() {
        let s = c.bytes.subrange(c.addr, c.addr + n);
        lemma_le_value_bound(s);
        reveal_with_fuel(pow256, 9);
        assert(pow256(8) == 0x1_0000_0000_0000_0000);
    }
}

/// The root of a buffer is the value whose packed type is the second last
/// byte: its type (made direct) and its width are those packed there, whatever
/// the width of the root offset in the last byte. Its slot stands just before
/// the type byte, as wide as the last byte says; a value stored inline is in
/// that slot, any other stands where the slot's offset points back to.
pub proof fn lemma_get_root_bytes(bytes: Seq<u8>)
    ensures
        spec_get_root(bytes) matches Ok(r) ==> {
            let len = bytes.len() as int;
            let rw = BitWidth::spec_from_nbytes(bytes[len - 1] as int)->Some_0;
            let packed = spec_unpack_type(bytes[len - 2])->Ok_0;
            let slot = len - 2 - rw.spec_n_bytes();
            &&& len >= 3
            &&& BitWidth::spec_from_nbytes(bytes[len - 1] as int) is Some
            &&& spec_unpack_type(bytes[len - 2]) is Ok
            &&& r.ty == direct_type(packed.0)
            &&& r.width == packed.1
            &&& r.cursor.bytes == bytes
            &&& slot >= 0
            &&& if packed.0.spec_is_reference() {
                r.cursor.addr == slot - le_at(bytes, slot, rw.spec_n_bytes())
            } else {
                r.cursor.addr == slot
            }
        },
{
    let len = bytes.len() as int;
    if len >= 3 {
        if let Some(rw) = BitWidth::spec_from_nbytes(bytes[len - 1] as int) {
            let slot = len - 2 - rw.spec_n_bytes();
            lemma_read_at(CursorView { bytes, addr: slot }, rw);
        }
    }
}

/// A map stores before its values, each as wide as a value, the offset back
/// to its keys vector, the width of the keys vector and its number of values;
/// its keys vector stores its number of keys just before it, as wide as the
/// keys vector says. A map opens where these lie in the buffer, the width is 1,
/// 2, 4 or 8, and the two counts agree; its length is that count.
pub proof fn lemma_get_map_bytes(v: ReaderView)
    requires
        v.wf(),
        v.ty == FlexBufferType::KeyValueMap,
    ensures
        v.get_map() matches Ok(m) ==> {
            let w = v.width.spec_n_bytes();
            let a = v.cursor.addr;
            let b = v.cursor.bytes;
            &&& a >= 3 * w
            &&& m.values == v.cursor
            &&& m.values_width == v.width
            &&& BitWidth::spec_from_nbytes(le_at(b, a - 2 * w, w) as int) == Some(m.keys_width)
            &&& m.keys_addr == a - 3 * w - le_at(b, a - 3 * w, w)
            &&& m.length == le_at(b, a - w, w)
            &&& m.keys_addr >= m.keys_width.spec_n_bytes()
            &&& m.length == le_at(
                b,
                m.keys_addr - m.keys_width.spec_n_bytes(),
                m.keys_width.spec_n_bytes(),
            )
        },
        ({
            let w = v.width.spec_n_bytes();
            let a = v.cursor.addr;
            let b = v.cursor.bytes;
            let kw = BitWidth::spec_from_nbytes(le_at(b, a - 2 * w, w) as int);
            let ka = a - 3 * w - le_at(b, a - 3 * w, w);
            &&& a >= 3 * w
            &&& kw is Some
            &&& ka >= kw->Some_0.spec_n_bytes()
            &&& le_at(b, a - 3 * w, w) <= usize::MAX
            &&& le_at(b, a - w, w) <= usize::MAX
            &&& le_at(b, ka - kw->Some_0.spec_n_bytes(), kw->Some_0.spec_n_bytes()) == le_at(
                b,
                a - w,
                w,
            )
        }) ==> v.get_map() is Ok,
{
    let w = v.width.spec_n_bytes();
    let a = v.cursor.addr;
    let b = v.cursor.bytes;
    lemma_read_at(CursorView { bytes: b, addr: a - 3 * w }, v.width);
    lemma_read_at(CursorView { bytes: b, addr: a - 2 * w }, v.width);
    lemma_read_at(CursorView { bytes: b, addr: a - w }, v.width);
    if a >= 3 * w {
        let ka = a - 3 * w - le_at(b, a - 3 * w, w);
        if let Some(kw) = BitWidth::spec_from_nbytes(le_at(b, a - 2 * w, w) as int) {
            lemma_read_at(CursorView { bytes: b, addr: ka - kw.spec_n_bytes() }, kw);
        }
    }
}

/// Value `i` of a map has its slot `i` value widths after the start of the
/// values, and its packed type in byte `i` of the type table that follows the
/// `length` value slots. Its reader has that type (made direct) and width, and
/// stands in the slot, or, for a value stored by offset, where the slot's
/// offset (as wide as a value) points back to. The keys play no part.
pub proof fn lemma_usize_index_bytes(m: MapView, i: int)
    requires
        m.wf(),
        0 <= i,
    ensures
        i >= m.length ==> m.usize_index(i) == Err::<ReaderView, Error>(Error::IndexOutOfBounds),
        m.usize_index(i) matches Ok(r) ==> {
            let vw = m.values_width.spec_n_bytes();
            let a = m.values.addr;
            let b = m.values.bytes;
            let slot = a + i * vw;
            let type_at = a + m.length * vw + i;
            let packed = spec_unpack_type(b[type_at])->Ok_0;
            &&& i < m.length
            &&& type_at < b.len()
            &&& spec_unpack_type(b[type_at]) is Ok
            &&& r.ty == direct_type(packed.0)
            &&& r.width == packed.1
            &&& r.cursor.bytes == b
            &&& slot <= b.len()
            &&& if packed.0.spec_is_reference() {
                slot + vw <= b.len() && r.cursor.addr == slot - le_at(b, slot, vw)
            } else {
                r.cursor.addr == slot
            }
        },
{
    let vw = m.values_width.spec_n_bytes();
    let slot = m.values.addr + i * vw;
    lemma_read_at(CursorView { bytes: m.values.bytes, addr: slot }, m.values_width);
}

/// The values that `iter_values` hands out are the map's values in order:
/// element `k` of the values vector is value `k` of the map, or the null
/// reader where that cannot be read.
pub proof fn lemma_values_vector_is_values(m: MapView, k: int)
    ensures
        m.values_vector().index(k) == m.usize_index(k),
        m.values_vector().idx(k) == (match m.usize_index(k) {
            Ok(r) => r,
            Err(_) => null_reader_view(),
        }),
{
}

/// A value is true as a boolean where it holds something: a nonzero number,
/// a true boolean, a nonempty string or key, or a blob, vector or map with
/// elements; a float is true exactly where `float_is_nonzero` says.
pub proof fn lemma_as_bool_meaning(v: ReaderView, float_is_nonzero: bool)
    requires
        v.wf(),
    ensures
        v.ty == FlexBufferType::Int ==> v.as_bool(float_is_nonzero) == (v.get_i64() matches Ok(
            x,
        ) && x != 0),
        v.ty == FlexBufferType::UInt ==> v.as_bool(float_is_nonzero) == (v.get_u64() matches Ok(
            x,
        ) && x != 0),
        v.ty == FlexBufferType::Bool ==> v.as_bool(float_is_nonzero) == (v.get_bool() == Ok::<
            bool,
            Error,
        >(true)),
        v.ty == FlexBufferType::Float ==> v.as_bool(float_is_nonzero) == float_is_nonzero,
        v.ty == FlexBufferType::Null ==> !v.as_bool(float_is_nonzero),
        v.ty == FlexBufferType::String || v.ty == FlexBufferType::Key ==> v.as_bool(
            float_is_nonzero,
        ) == (v.as_str().len() > 0),
        v.ty == FlexBufferType::Blob || v.ty.spec_is_vector() ==> v.as_bool(float_is_nonzero) == (
        v.length() > 0),
{
}

/// A value read as a `u64`: an unsigned integer is itself, a signed one
/// itself where it is not negative, a string the number it spells, a vector
/// or map its length; anything else, or what cannot be read, is 0.
pub proof fn lemma_as_u64_meaning(v: ReaderView, float_as_u64: u64)
    ensures
        v.ty == FlexBufferType::UInt ==> v.as_u64(float_as_u64) == (match v.get_u64() {
            Ok(x) => x,
            Err(_) => 0,
        }),
        v.ty == FlexBufferType::Int ==> v.as_u64(float_as_u64) as int == (match v.get_i64() {
            Ok(x) => if x < 0 {
                0
            } else {
                x as int
            },
            Err(_) => 0,
        }),
        v.ty == FlexBufferType::Float ==> v.as_u64(float_as_u64) == float_as_u64,
        v.ty == FlexBufferType::String ==> v.as_u64(float_as_u64) == (match spec_parse_u64(
            v.as_str(),
        ) {
            Some(x) => x,
            None => 0,
        }),
        v.ty.spec_is_vector() ==> v.as_u64(float_as_u64) as int == v.length() as int,
        v.ty == FlexBufferType::Null || v.ty == FlexBufferType::Bool || v.ty == FlexBufferType::Key
            || v.ty == FlexBufferType::Blob ==> v.as_u64(float_as_u64) == 0,
{
}

/// A value read as an `i64`: a signed integer is itself, an unsigned one
/// itself where it fits, a string the number it spells, a vector or map its
/// length; anything else, or what cannot be read, is 0.
pub proof fn lemma_as_i64_meaning(v: ReaderView, float_as_i64: i64)
    ensures
        v.ty == FlexBufferType::Int ==> v.as_i64(float_as_i64) == (match v.get_i64() {
            Ok(x) => x,
            Err(_) => 0,
        }),
        v.ty == FlexBufferType::UInt ==> v.as_i64(float_as_i64) as int == (match v.get_u64() {
            Ok(x) => if x > i64::MAX {
                0
            } else {
                x as int
            },
            Err(_) => 0,
        }),
        v.ty == FlexBufferType::Float ==> v.as_i64(float_as_i64) == float_as_i64,
        v.ty == FlexBufferType::String ==> v.as_i64(float_as_i64) == (match spec_parse_i64(
            v.as_str(),
        ) {
            Some(x) => x,
            None => 0,
        }),
        v.ty.spec_is_vector() && v.length() <= i64::MAX ==> v.as_i64(float_as_i64) as int
            == v.length() as int,
        v.ty == FlexBufferType::Null || v.ty == FlexBufferType::Bool || v.ty == FlexBufferType::Key
            || v.ty == FlexBufferType::Blob ==> v.as_i64(float_as_i64) == 0,
{
}

/// An unsigned integer is the little-endian number in the `width` bytes at
/// its address; a signed integer is that number read as two's complement:
/// the same number less `2` to the power of its bits where the top bit is
/// set. Where those bytes run past the buffer the read fails.
pub proof fn lemma_get_int_bytes(v: ReaderView)
    requires
        v.wf(),
    ensures
        ({
            let n = v.width.spec_n_bytes();
            let a = v.cursor.addr;
            let b = v.cursor.bytes;
            &&& v.ty == FlexBufferType::UInt && a + n <= b.len() ==> v.get_u64() == Ok::<
                u64,
                Error,
            >(le_at(b, a, n) as u64) && le_at(b, a, n) <= u64::MAX
            &&& v.ty == FlexBufferType::UInt && a + n > b.len() ==> v.get_u64() == Err::<
                u64,
                Error,
            >(Error::FlexbufferOutOfBounds)
            &&& v.ty == FlexBufferType::Int && a + n > b.len() ==> v.get_i64() == Err::<
                i64,
                Error,
            >(Error::FlexbufferOutOfBounds)
            &&& v.ty == FlexBufferType::Int && a + n <= b.len() ==> (v.get_i64() matches Ok(x) && (
            if le_at(b, a, n) >= pow2((8 * n) as nat) / 2 {
                x as int == le_at(b, a, n) - pow2((8 * n) as nat)
            } else {
                x as int == le_at(b, a, n)
            }))
        }),
        pow2(8) == 0x100,
        pow2(16) == 0x1_0000,
        pow2(32) == 0x1_0000_0000,
        pow2(64) == 0x1_0000_0000_0000_0000,
{
    lemma_read_at(v.cursor, v.width);
    super::laws::lemma_signed_value_widths(0);
    let n = v.width.spec_n_bytes();
    let a = v.cursor.addr;
    let b = v.cursor.bytes;
    if a + n <= b.len() {
        let u = le_at(b, a, n);
        assert(u < pow2((8 * n) as nat)) by {
            lemma_le_value_bound(b.subrange(a, a + n));
            reveal_with_fuel(pow256, 9);
        }
        assert(i64::MIN <= signed_value(u, (8 * n) as nat) <= i64::MAX);
    }
}

/// The bytes of a string or blob are the `length()` bytes from its address
/// on, where they lie in the buffer.
pub proof fn lemma_length_prefixed_bytes(v: ReaderView, t: FlexBufferType)
    requires
        v.wf(),
    ensures
        v.length_prefixed_bytes(t) matches Ok(s) ==> v.ty == t && v.try_length() is Ok
            && v.cursor.addr + v.length() <= v.cursor.bytes.len() && s == v.cursor.bytes.subrange(
            v.cursor.addr,
            v.cursor.addr + v.length(),
        ),
        v.ty == t && v.try_length() is Ok && v.cursor.addr + v.length() <= v.cursor.bytes.len()
            ==> v.length_prefixed_bytes(t) is Ok,
{
}

/// A vector opens on every vector type, and has the value's length.
pub proof fn lemma_get_vector_length(v: ReaderView)
    ensures
        v.get_vector() matches Ok(vv) ==> vv.reader == v && vv.length == v.length()
            && v.ty.spec_is_vector(),
        v.ty.spec_is_vector() && v.try_length() is Ok ==> v.get_vector() is Ok,
{
}

/// Element `i` of a vector has its slot `i` element widths after the
/// vector's start. A typed vector's elements all have its element type and
/// its width; an untyped vector's element `i` has the type and width packed in
/// byte `i` of the type table after the `length` slots. The element stands in
/// its slot, or, stored by offset, where the slot's offset points back to.
pub proof fn lemma_vector_index_bytes(vv: VectorView, i: int)
    requires
        vv.wf(),
        0 <= i,
    ensures
        i >= vv.length ==> vv.index(i) == Err::<ReaderView, Error>(Error::IndexOutOfBounds),
        vv.index(i) matches Ok(r) ==> {
            let w = vv.reader.width.spec_n_bytes();
            let a = vv.reader.cursor.addr;
            let b = vv.reader.cursor.bytes;
            let slot = a + i * w;
            let type_at = a + vv.length * w + i;
            let packed = match vv.reader.ty.spec_typed_vector_type() {
                Some(t) => (t, vv.reader.width),
                None => spec_unpack_type(b[type_at])->Ok_0,
            };
            &&& i < vv.length
            &&& vv.reader.ty.spec_typed_vector_type() is None ==> type_at < b.len() && spec_unpack_type(
                b[type_at],
            ) is Ok
            &&& r.ty == direct_type(packed.0)
            &&& r.width == packed.1
            &&& r.cursor.bytes == b
            &&& slot <= b.len()
            &&& if packed.0.spec_is_reference() {
                slot + w <= b.len() && r.cursor.addr == slot - le_at(b, slot, w)
            } else {
                r.cursor.addr == slot
            }
        },
{
    let w = vv.reader.width.spec_n_bytes();
    let slot = vv.reader.cursor.addr + i * w;
    lemma_read_at(CursorView { bytes: vv.reader.cursor.bytes, addr: slot }, vv.reader.width);
}

/// Key `i` of a keys vector has its slot `i` key widths after the vector's
/// start, and stands where the slot's offset, as wide as a key slot, points
/// back to.
pub proof fn lemma_key_at_bytes(keys: CursorView, keys_width: BitWidth, i: usize)
    requires
        0 <= keys.addr <= keys.bytes.len(),
    ensures
        key_at(keys, keys_width, i) matches Ok(c) ==> {
            let w = keys_width.spec_n_bytes();
            let slot = keys.addr + i * w;
            &&& slot + w <= keys.bytes.len()
            &&& c.bytes == keys.bytes
            &&& c.addr == slot - le_at(keys.bytes, slot, w)
        },
{
    let w = keys_width.spec_n_bytes();
    lemma_read_at(CursorView { bytes: keys.bytes, addr: keys.addr + i * w }, keys_width);
}

/// The elements of a typed slice of `T` are the `length()` elements of `T`'s
/// width from the vector's address on.
pub proof fn lemma_slice_bytes<T: ReadLE>(v: ReaderView)
    requires
        v.wf(),
    ensures
        v.slice_bytes::<T>() matches Ok(s) ==> v.width == T::spec_width()
            && v.ty.spec_typed_vector_type() == T::spec_vector_type().spec_typed_vector_type()
            && s == v.cursor.bytes.subrange(
            v.cursor.addr,
            v.cursor.addr + v.length() * T::spec_width().spec_n_bytes(),
        ),
{
}

} // verus!

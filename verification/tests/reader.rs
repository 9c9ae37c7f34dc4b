use flexbuffers::{BitWidth, FlexBufferType, ReadLE, Reader, ReaderError};

fn packed(t: FlexBufferType, w: BitWidth) -> u8 {
    t.to_u8() << 2 | w.to_u8()
}

fn map_of_two() -> Vec<u8> {
    vec![
        b'a', 0, b'b', 0, // Keys.
        2, 5, 4, // Key count, then the offsets back to each key.
        2, 1, 2, // Keys-vector offset, key width, value count.
        10, 20, // Values.
        packed(FlexBufferType::UInt, BitWidth::W8),
        packed(FlexBufferType::UInt, BitWidth::W8),
        4, // Root offset back to the values.
        packed(FlexBufferType::KeyValueMap, BitWidth::W8),
        1,
    ]
}

#[test]
fn root_uint_is_read() {
    let buffer = [42, packed(FlexBufferType::UInt, BitWidth::W8), 1];
    let r = Reader::get_root(buffer.as_ref()).unwrap();
    assert_eq!(r.flexbuffer_type(), FlexBufferType::UInt);
    assert_eq!(r.bitwidth(), BitWidth::W8);
    assert_eq!(r.get_u64(), Ok(42));
    assert_eq!(
        r.get_i64(),
        Err(ReaderError::UnexpectedFlexbufferType {
            expected: FlexBufferType::Int,
            actual: FlexBufferType::UInt
        })
    );
    assert_eq!(r.as_u64_with_float(7), 42);
    assert_eq!(r.as_i64_with_float(7), 42);
    assert!(r.as_bool_with_float(false));
    assert_eq!(r.length(), 0);
    assert_eq!(r.buffer(), buffer.as_ref());
}

#[test]
fn wide_integers_are_little_endian() {
    let buffer = [0x34, 0x12, packed(FlexBufferType::Int, BitWidth::W16), 2];
    let r = Reader::get_root(buffer.as_ref()).unwrap();
    assert_eq!(r.get_i64(), Ok(0x1234));

    let buffer = [0xff, 0xff, 0xff, 0xff, packed(FlexBufferType::Int, BitWidth::W32), 4];
    let r = Reader::get_root(buffer.as_ref()).unwrap();
    assert_eq!(r.get_i64(), Ok(-1));
    assert_eq!(r.as_u64_with_float(0), 0);

    let mut buffer = vec![1, 2, 3, 4, 5, 6, 7, 8];
    buffer.push(packed(FlexBufferType::UInt, BitWidth::W64));
    buffer.push(8);
    let r = Reader::get_root(buffer.as_ref()).unwrap();
    assert_eq!(r.get_u64(), Ok(0x0807_0605_0403_0201));

    let buffer = [0xfe, packed(FlexBufferType::Int, BitWidth::W8), 1];
    let r = Reader::get_root(buffer.as_ref()).unwrap();
    assert_eq!(r.get_i64(), Ok(-2));
    assert_eq!(r.as_i8_with_float(0), -2);
    assert_eq!(r.as_u8_with_float(0), 0);
}

#[test]
fn narrowing_casts_default_to_zero() {
    let buffer = [0x2c, 0x01, packed(FlexBufferType::UInt, BitWidth::W16), 2];
    let r = Reader::get_root(buffer.as_ref()).unwrap();
    assert_eq!(r.as_u64_with_float(0), 300);
    assert_eq!(r.as_u16_with_float(0), 300);
    assert_eq!(r.as_u32_with_float(0), 300);
    assert_eq!(r.as_u8_with_float(0), 0);
    assert_eq!(r.as_i16_with_float(0), 300);
    assert_eq!(r.as_i32_with_float(0), 300);
    assert_eq!(r.as_i8_with_float(0), 0);
}

#[test]
fn indirect_value_is_followed() {
    let buffer = [42, 1, packed(FlexBufferType::IndirectUInt, BitWidth::W8), 1];
    let r = Reader::get_root(buffer.as_ref()).unwrap();
    assert_eq!(r.flexbuffer_type(), FlexBufferType::UInt);
    assert_eq!(r.get_u64(), Ok(42));
}

#[test]
fn root_errors() {
    let empty: [u8; 0] = [];
    assert_eq!(
        Reader::get_root(empty.as_ref()).err(),
        Some(ReaderError::FlexbufferOutOfBounds)
    );
    assert_eq!(
        Reader::get_root([0u8, 0].as_ref()).err(),
        Some(ReaderError::FlexbufferOutOfBounds)
    );
    assert_eq!(
        Reader::get_root([0u8, 0, 3].as_ref()).err(),
        Some(ReaderError::InvalidRootWidth)
    );
    assert_eq!(
        Reader::get_root([0u8, 0xff, 1].as_ref()).err(),
        Some(ReaderError::InvalidPackedType)
    );
    // A root offset pointing before the start of the buffer.
    let buffer = [5, packed(FlexBufferType::String, BitWidth::W8), 1];
    assert_eq!(
        Reader::get_root(buffer.as_ref()).err(),
        Some(ReaderError::FlexbufferOutOfBounds)
    );
}

#[test]
fn string_is_read() {
    let buffer = [2, b'h', b'i', 0, 3, packed(FlexBufferType::String, BitWidth::W8), 1];
    let r = Reader::get_root(buffer.as_ref()).unwrap();
    assert_eq!(r.get_str(), Ok("hi"));
    assert_eq!(r.as_str(), "hi");
    assert_eq!(r.length(), 2);
    assert_eq!(r.as_u64_with_float(0), 0);
    assert!(r.as_bool_with_float(false));
    assert_eq!(
        r.get_key(),
        Err(ReaderError::UnexpectedFlexbufferType {
            expected: FlexBufferType::Key,
            actual: FlexBufferType::String
        })
    );
}

#[test]
fn numeric_strings_are_parsed() {
    let buffer = [3, b'1', b'2', b'3', 0, 4, packed(FlexBufferType::String, BitWidth::W8), 1];
    let r = Reader::get_root(buffer.as_ref()).unwrap();
    assert_eq!(r.as_u64_with_float(0), 123);
    assert_eq!(r.as_i64_with_float(0), 123);

    let buffer = [2, b'-', b'5', 0, 3, packed(FlexBufferType::String, BitWidth::W8), 1];
    let r = Reader::get_root(buffer.as_ref()).unwrap();
    assert_eq!(r.as_i64_with_float(0), -5);
    assert_eq!(r.as_u64_with_float(0), 0);

    let buffer = [2, b'+', b'7', 0, 3, packed(FlexBufferType::String, BitWidth::W8), 1];
    let r = Reader::get_root(buffer.as_ref()).unwrap();
    assert_eq!(r.as_u64_with_float(0), 7);
    assert_eq!(r.as_i64_with_float(0), 7);
}

#[test]
fn invalid_utf8_is_rejected() {
    let buffer = [1, 0xff, 1, packed(FlexBufferType::String, BitWidth::W8), 1];
    let r = Reader::get_root(buffer.as_ref()).unwrap();
    assert!(matches!(r.get_str(), Err(ReaderError::Utf8Error(Some(_)))));
    assert_eq!(r.as_str(), "");
    assert!(!r.as_bool_with_float(true));
}

#[test]
fn key_is_read() {
    let buffer = [b'a', b'b', 0, 3, packed(FlexBufferType::Key, BitWidth::W8), 1];
    let r = Reader::get_root(buffer.as_ref()).unwrap();
    assert_eq!(r.get_key(), Ok("ab"));
    assert_eq!(r.as_str(), "ab");
}

#[test]
fn blob_is_read() {
    let buffer = [3, 1, 2, 3, 3, packed(FlexBufferType::Blob, BitWidth::W8), 1];
    let r = Reader::get_root(buffer.as_ref()).unwrap();
    assert_eq!(r.get_blob().unwrap().0, &[1u8, 2, 3][..]);
    assert_eq!(r.as_blob().0, &[1u8, 2, 3][..]);
    assert!(r.as_bool_with_float(false));

    let buffer = [1, packed(FlexBufferType::UInt, BitWidth::W8), 1];
    let r = Reader::get_root(buffer.as_ref()).unwrap();
    assert_eq!(r.as_blob().0.len(), 0);
}

#[test]
fn bools_are_read() {
    let buffer = [1, packed(FlexBufferType::Bool, BitWidth::W8), 1];
    let r = Reader::get_root(buffer.as_ref()).unwrap();
    assert_eq!(r.get_bool(), Ok(true));
    assert!(r.as_bool_with_float(false));

    let buffer = [0, 0, packed(FlexBufferType::Bool, BitWidth::W16), 2];
    let r = Reader::get_root(buffer.as_ref()).unwrap();
    assert_eq!(r.get_bool(), Ok(false));
    assert!(!r.as_bool_with_float(true));
}

#[test]
fn floats_hand_out_their_bytes() {
    let buffer = [0, 0, 0x80, 0x3f, packed(FlexBufferType::Float, BitWidth::W32), 4];
    let r = Reader::get_root(buffer.as_ref()).unwrap();
    assert_eq!(r.get_float_bytes(), Ok(&[0u8, 0, 0x80, 0x3f][..]));
    assert_eq!(r.as_u64_with_float(1), 1);
    assert_eq!(r.as_i64_with_float(-1), -1);
    assert!(r.as_bool_with_float(true));

    let buffer = [0, packed(FlexBufferType::Float, BitWidth::W8), 1];
    let r = Reader::get_root(buffer.as_ref()).unwrap();
    assert_eq!(r.get_float_bytes(), Err(ReaderError::InvalidPackedType));
}

#[test]
fn typed_vector_is_indexed() {
    let buffer = [2, 7, 9, 2, packed(FlexBufferType::VectorUInt, BitWidth::W8), 1];
    let r = Reader::get_root(buffer.as_ref()).unwrap();
    let v = r.get_vector().unwrap();
    assert_eq!(v.len(), 2);
    assert!(!v.is_empty());
    assert_eq!(v.index(0).unwrap().get_u64(), Ok(7));
    assert_eq!(v.index(1).unwrap().get_u64(), Ok(9));
    assert_eq!(v.index(2).err(), Some(ReaderError::IndexOutOfBounds));
    assert_eq!(v.idx(2).flexbuffer_type(), FlexBufferType::Null);
    assert_eq!(r.length(), 2);
    assert_eq!(r.as_u64_with_float(0), 2);
    assert!(r.as_bool_with_float(false));

    let mut it = v.iter();
    assert_eq!(it.len(), 2);
    assert_eq!(it.next().unwrap().get_u64(), Ok(7));
    assert_eq!(it.next_back().unwrap().get_u64(), Ok(9));
    assert!(it.next().is_none());
    assert!(it.next_back().is_none());
}

#[test]
fn untyped_vector_reads_its_type_table() {
    let buffer = [
        2,
        5,
        6,
        packed(FlexBufferType::UInt, BitWidth::W8),
        packed(FlexBufferType::Int, BitWidth::W8),
        4,
        packed(FlexBufferType::Vector, BitWidth::W8),
        1,
    ];
    let r = Reader::get_root(buffer.as_ref()).unwrap();
    let v = r.as_vector();
    assert_eq!(v.len(), 2);
    assert_eq!(v.index(0).unwrap().get_u64(), Ok(5));
    assert_eq!(v.index(1).unwrap().get_i64(), Ok(6));
}

#[test]
fn fixed_length_vector_has_no_length_slot() {
    let buffer = [7, 9, 2, packed(FlexBufferType::VectorUInt2, BitWidth::W8), 1];
    let r = Reader::get_root(buffer.as_ref()).unwrap();
    assert_eq!(r.length(), 2);
    let v = r.get_vector().unwrap();
    assert_eq!(v.index(1).unwrap().get_u64(), Ok(9));
}

#[test]
fn non_vectors_cannot_be_indexed() {
    let buffer = [1, packed(FlexBufferType::UInt, BitWidth::W8), 1];
    let r = Reader::get_root(buffer.as_ref()).unwrap();
    assert_eq!(
        r.get_vector().err(),
        Some(ReaderError::UnexpectedFlexbufferType {
            expected: FlexBufferType::Vector,
            actual: FlexBufferType::UInt
        })
    );
    assert_eq!(r.as_vector().len(), 0);
    assert_eq!(r.as_map().len(), 0);
    assert_eq!(
        r.get_map().err(),
        Some(ReaderError::UnexpectedFlexbufferType {
            expected: FlexBufferType::KeyValueMap,
            actual: FlexBufferType::UInt
        })
    );
}

#[test]
fn typed_slices_are_decoded() {
    let buffer = [2, 7, 9, 2, packed(FlexBufferType::VectorUInt, BitWidth::W8), 1];
    let r = Reader::get_root(buffer.as_ref()).unwrap();
    assert_eq!(r.get_slice::<u8>(), Ok(vec![7, 9]));
    assert_eq!(
        r.get_slice::<u16>().err(),
        Some(ReaderError::UnexpectedBitWidth {
            expected: BitWidth::W16,
            actual: BitWidth::W8
        })
    );
    assert_eq!(
        r.get_slice::<i8>().err(),
        Some(ReaderError::UnexpectedFlexbufferType {
            expected: FlexBufferType::VectorInt,
            actual: FlexBufferType::VectorUInt
        })
    );

    let buffer = [
        2,
        0,
        0x34,
        0x12,
        0xff,
        0xff,
        4,
        packed(FlexBufferType::VectorInt, BitWidth::W16),
        1,
    ];
    let r = Reader::get_root(buffer.as_ref()).unwrap();
    assert_eq!(r.get_slice::<i16>(), Ok(vec![0x1234, -1]));
}

#[test]
fn map_is_searched_by_key() {
    let buffer = map_of_two();
    let m = Reader::get_root(buffer.as_ref()).unwrap().get_map().unwrap();
    assert_eq!(m.len(), 2);
    assert!(!m.is_empty());
    assert_eq!(m.index_key("a"), Some(0));
    assert_eq!(m.index_key("b"), Some(1));
    assert_eq!(m.index_key("c"), None);
    assert_eq!(m.index_key(""), None);
    assert_eq!(m.index("a").unwrap().get_u64(), Ok(10));
    assert_eq!(m.index("b").unwrap().get_u64(), Ok(20));
    assert_eq!(m.index(1usize).unwrap().get_u64(), Ok(20));
    assert_eq!(m.index("c").err(), Some(ReaderError::KeyNotFound));
    assert_eq!(m.index(2usize).err(), Some(ReaderError::IndexOutOfBounds));
    assert_eq!(m.idx("c").flexbuffer_type(), FlexBufferType::Null);
    assert_eq!(m.idx("a").get_u64(), Ok(10));
}

#[test]
fn map_is_iterated() {
    let buffer = map_of_two();
    let m = Reader::get_root(buffer.as_ref()).unwrap().as_map();
    let mut keys = m.iter_keys();
    assert_eq!(keys.len(), 2);
    assert_eq!(keys.next(), Some("a"));
    assert_eq!(keys.next_back(), Some("b"));
    assert_eq!(keys.next(), None);

    let mut values = m.iter_values();
    assert_eq!(values.next().unwrap().get_u64(), Ok(10));
    assert_eq!(values.next().unwrap().get_u64(), Ok(20));
    assert!(values.next().is_none());

    let mut keys = m.iter_keys();
    let mut position = 0;
    while let Some(k) = keys.next() {
        assert_eq!(m.index_key(k), Some(position));
        assert_eq!(m.index(k).unwrap().get_u64(), m.index(position).unwrap().get_u64());
        position += 1;
    }
    assert_eq!(position, m.len());

    let keys = m.keys_vector();
    assert_eq!(keys.len(), 2);
    assert_eq!(keys.index(1).unwrap().get_key(), Ok("b"));
}

#[test]
fn map_with_bad_keys_width_is_rejected() {
    let mut buffer = map_of_two();
    buffer[8] = 3;
    let r = Reader::get_root(buffer.as_ref()).unwrap();
    assert_eq!(
        r.get_map().err(),
        Some(ReaderError::InvalidMapKeysVectorWidth)
    );
}

#[test]
fn defaults_are_null_and_empty() {
    let r = Reader::default();
    assert_eq!(r.flexbuffer_type(), FlexBufferType::Null);
    assert_eq!(r.bitwidth(), BitWidth::W8);
    assert_eq!(r.as_str(), "");
    assert!(!r.as_bool_with_float(true));
    assert_eq!(r.as_u64_with_float(3), 0);
    let m = flexbuffers::MapReader::default();
    assert!(m.is_empty());
    assert_eq!(m.index_key("a"), None);
    let v = flexbuffers::VectorReader::default();
    assert!(v.is_empty());
}

#[test]
fn packed_types_unpack() {
    for code in 0u8..=255 {
        let r = flexbuffers::reader::unpack_type(code);
        match (FlexBufferType::from_u8(code >> 2), BitWidth::from_u8(code & 3)) {
            (Some(t), Some(w)) => {
                assert_eq!(r, Ok((t, w)));
                assert_eq!(packed(t, w), code);
            }
            _ => assert_eq!(r, Err(ReaderError::InvalidPackedType)),
        }
    }
}

#[test]
fn widths_and_types_round_trip() {
    for w in [BitWidth::W8, BitWidth::W16, BitWidth::W32, BitWidth::W64] {
        assert_eq!(BitWidth::from_nbytes(w.n_bytes()), Some(w));
        assert_eq!(BitWidth::from_u8(w.to_u8()), Some(w));
    }
    assert_eq!(BitWidth::from_nbytes(3), None);
    assert_eq!(FlexBufferType::from_u8(36), Some(FlexBufferType::VectorBool));
    assert_eq!(FlexBufferType::from_u8(27), None);
    assert!(FlexBufferType::KeyValueMap.is_vector());
    assert!(!FlexBufferType::Blob.is_vector());
    assert!(FlexBufferType::Blob.has_length_slot());
    assert_eq!(
        FlexBufferType::VectorString.typed_vector_type(),
        Some(FlexBufferType::Key)
    );
    assert_eq!(BitWidth::default(), BitWidth::W8);
    assert_eq!(FlexBufferType::default(), FlexBufferType::Null);
}

#[test]
fn empty_map_finds_nothing() {
    let buffer = [
        0, // Key count.
        0, // Keys-vector offset, back to the byte after the key count.
        1, // Key width.
        0, // Value count.
        0, // Root offset: the map has no values, so it starts here.
        packed(FlexBufferType::KeyValueMap, BitWidth::W8),
        1,
    ];
    let m = Reader::get_root(buffer.as_ref()).unwrap().get_map().unwrap();
    assert!(m.is_empty());
    assert_eq!(m.index_key("a"), None);
    assert_eq!(m.index("a").err(), Some(ReaderError::KeyNotFound));
    assert_eq!(m.index(0usize).err(), Some(ReaderError::IndexOutOfBounds));
    assert!(m.iter_keys().next().is_none());
}

#[test]
fn length_reads_the_slot_before_the_value() {
    let buffer = [3, 7, 8, 9, 3, packed(FlexBufferType::VectorUInt, BitWidth::W8), 1];
    let r = Reader::get_root(buffer.as_ref()).unwrap();
    assert_eq!(r.length(), 3);
    let buffer = [0, packed(FlexBufferType::VectorUInt, BitWidth::W8), 1];
    let r = Reader::get_root(buffer.as_ref()).unwrap();
    assert_eq!(r.length(), 0);
}

#[test]
fn elements_decode_only_at_their_width() {
    assert_eq!(u16::read_le(&[1, 2]), Some(0x0201));
    assert_eq!(u16::read_le(&[1]), None);
    assert_eq!(i32::read_le(&[0xff, 0xff, 0xff, 0xff]), Some(-1));
    assert_eq!(u8::read_le(&[1, 2]), None);
}

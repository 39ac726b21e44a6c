use networkinator::port_systems::read_writer_tcp::{
    extract_messages_from_buffer, get_bytes_size, parse_value_from_bytes, read_value_to_usize,
    value_to_bytes, BytesOptions, OrderOptions, ReadValue,
};

#[test]
fn bytes_size_of_each_kind() {
    assert_eq!(get_bytes_size(&BytesOptions::U8), 1);
    assert_eq!(get_bytes_size(&BytesOptions::I8), 1);
    assert_eq!(get_bytes_size(&BytesOptions::U16), 2);
    assert_eq!(get_bytes_size(&BytesOptions::I16), 2);
    assert_eq!(get_bytes_size(&BytesOptions::U32), 4);
    assert_eq!(get_bytes_size(&BytesOptions::I32), 4);
    assert_eq!(get_bytes_size(&BytesOptions::F32), 4);
    assert_eq!(get_bytes_size(&BytesOptions::U64), 8);
    assert_eq!(get_bytes_size(&BytesOptions::I64), 8);
    assert_eq!(get_bytes_size(&BytesOptions::F64), 8);
    assert_eq!(get_bytes_size(&BytesOptions::U128), 16);
    assert_eq!(get_bytes_size(&BytesOptions::I128), 16);
}

#[test]
fn value_to_usize_converts_like_as() {
    assert_eq!(read_value_to_usize(ReadValue::U8(7)), 7);
    assert_eq!(read_value_to_usize(ReadValue::U16(65535)), 65535);
    assert_eq!(read_value_to_usize(ReadValue::U32(70000)), 70000);
    assert_eq!(read_value_to_usize(ReadValue::U64(12)), 12);
    assert_eq!(read_value_to_usize(ReadValue::I8(-1)), usize::MAX);
    assert_eq!(read_value_to_usize(ReadValue::I32(-2)), usize::MAX - 1);
    assert_eq!(read_value_to_usize(ReadValue::I64(5)), 5);
    assert_eq!(read_value_to_usize(ReadValue::U128(u128::MAX)), usize::MAX);
    assert_eq!(read_value_to_usize(ReadValue::I128(300)), 300);
}

#[test]
fn parse_reads_each_order() {
    let le = OrderOptions::LittleEndian;
    let be = OrderOptions::BigEndian;
    assert_eq!(parse_value_from_bytes(&[1, 2], &BytesOptions::U16, &le), ReadValue::U16(0x0201));
    assert_eq!(parse_value_from_bytes(&[1, 2], &BytesOptions::U16, &be), ReadValue::U16(0x0102));
    assert_eq!(
        parse_value_from_bytes(&[1, 2, 3, 4], &BytesOptions::U32, &le),
        ReadValue::U32(0x04030201)
    );
    assert_eq!(
        parse_value_from_bytes(&[1, 2, 3, 4], &BytesOptions::U32, &be),
        ReadValue::U32(0x01020304)
    );
    assert_eq!(parse_value_from_bytes(&[0xFF, 0xFE], &BytesOptions::I16, &be), ReadValue::I16(-2));
    assert_eq!(parse_value_from_bytes(&[0xFE, 0xFF], &BytesOptions::I16, &le), ReadValue::I16(-2));
    assert_eq!(parse_value_from_bytes(&[5, 9], &BytesOptions::U8, &be), ReadValue::U8(5));
    assert_eq!(parse_value_from_bytes(&[0x80], &BytesOptions::I8, &le), ReadValue::I8(-128));
    assert_eq!(
        parse_value_from_bytes(&[0, 0, 0, 0, 0, 0, 1, 0], &BytesOptions::U64, &be),
        ReadValue::U64(256)
    );
    let mut sixteen = [0u8; 16];
    sixteen[0] = 0xFF;
    assert_eq!(
        parse_value_from_bytes(&sixteen, &BytesOptions::I128, &be),
        ReadValue::I128(i128::from_be_bytes(sixteen))
    );
    assert_eq!(
        parse_value_from_bytes(&sixteen, &BytesOptions::U128, &le),
        ReadValue::U128(0xFF)
    );
}

#[test]
fn value_bytes_match_std_encoding() {
    let le = OrderOptions::LittleEndian;
    let be = OrderOptions::BigEndian;
    assert_eq!(value_to_bytes(&ReadValue::U32(0x01020304), &le), vec![4, 3, 2, 1]);
    assert_eq!(value_to_bytes(&ReadValue::U32(0x01020304), &be), vec![1, 2, 3, 4]);
    assert_eq!(value_to_bytes(&ReadValue::I16(-2), &be), vec![0xFF, 0xFE]);
    assert_eq!(value_to_bytes(&ReadValue::U8(9), &be), vec![9]);
    assert_eq!(value_to_bytes(&ReadValue::I8(-1), &le), vec![0xFF]);
    assert_eq!(value_to_bytes(&ReadValue::U64(258), &be), 258u64.to_be_bytes().to_vec());
    assert_eq!(value_to_bytes(&ReadValue::I64(-3), &le), (-3i64).to_le_bytes().to_vec());
    assert_eq!(
        value_to_bytes(&ReadValue::U128(u128::MAX - 5), &be),
        (u128::MAX - 5).to_be_bytes().to_vec()
    );
    assert_eq!(value_to_bytes(&ReadValue::I128(-7), &le), (-7i128).to_le_bytes().to_vec());
}

#[test]
fn extract_one_frame_and_keep_the_rest() {
    let mut buffer = vec![2u8, 7, 8, 1];
    let messages =
        extract_messages_from_buffer(&mut buffer, &BytesOptions::U8, &OrderOptions::LittleEndian);
    assert_eq!(messages, vec![vec![7u8, 8]]);
    assert_eq!(buffer, vec![1u8]);
}

#[test]
fn extract_big_endian_u16_frames() {
    let mut buffer = vec![0u8, 3, 10, 11, 12, 0, 2, 99];
    let messages =
        extract_messages_from_buffer(&mut buffer, &BytesOptions::U16, &OrderOptions::BigEndian);
    assert_eq!(messages, vec![vec![10u8, 11, 12]]);
    assert_eq!(buffer, vec![0u8, 2, 99]);
}

#[test]
fn extract_from_empty_buffer() {
    let mut buffer: Vec<u8> = Vec::new();
    let messages =
        extract_messages_from_buffer(&mut buffer, &BytesOptions::U32, &OrderOptions::BigEndian);
    assert!(messages.is_empty());
    assert!(buffer.is_empty());
}

#[test]
fn extract_empty_payloads() {
    let mut buffer = vec![0u8, 0, 0];
    let messages =
        extract_messages_from_buffer(&mut buffer, &BytesOptions::U8, &OrderOptions::BigEndian);
    assert_eq!(messages, vec![Vec::<u8>::new(), Vec::new(), Vec::new()]);
    assert!(buffer.is_empty());
}

#[test]
fn extract_waits_for_a_whole_header() {
    let mut buffer = vec![0u8, 0, 1];
    let messages =
        extract_messages_from_buffer(&mut buffer, &BytesOptions::U32, &OrderOptions::BigEndian);
    assert!(messages.is_empty());
    assert_eq!(buffer, vec![0u8, 0, 1]);
}

#[test]
fn extract_negative_header_never_completes() {
    let mut buffer = vec![0xFFu8, 1, 2, 3];
    let messages =
        extract_messages_from_buffer(&mut buffer, &BytesOptions::I8, &OrderOptions::LittleEndian);
    assert!(messages.is_empty());
    assert_eq!(buffer, vec![0xFFu8, 1, 2, 3]);
}

#[test]
fn extract_huge_u64_header_waits() {
    let mut buffer = vec![0xFFu8; 12];
    let messages =
        extract_messages_from_buffer(&mut buffer, &BytesOptions::U64, &OrderOptions::LittleEndian);
    assert!(messages.is_empty());
    assert_eq!(buffer.len(), 12);
}

#[test]
fn written_frame_is_extracted_whole() {
    for order in [OrderOptions::LittleEndian, OrderOptions::BigEndian] {
        let payload = vec![5u8, 6, 7];
        let mut stream = value_to_bytes(&ReadValue::U32(3), &order);
        stream.extend_from_slice(&payload);
        stream.extend_from_slice(&value_to_bytes(&ReadValue::U32(9), &order));
        let messages = extract_messages_from_buffer(&mut stream, &BytesOptions::U32, &order);
        assert_eq!(messages, vec![payload]);
        assert_eq!(stream, value_to_bytes(&ReadValue::U32(9), &order));
    }
}

#[test]
fn pieces_give_the_same_frames_as_the_whole() {
    let whole = vec![2u8, 1, 2, 3, 4, 5, 6, 1, 9, 2];
    for cut in 0..=whole.len() {
        let mut all = whole.clone();
        let at_once =
            extract_messages_from_buffer(&mut all, &BytesOptions::U8, &OrderOptions::BigEndian);
        let mut part = whole[..cut].to_vec();
        let mut first =
            extract_messages_from_buffer(&mut part, &BytesOptions::U8, &OrderOptions::BigEndian);
        part.extend_from_slice(&whole[cut..]);
        let second =
            extract_messages_from_buffer(&mut part, &BytesOptions::U8, &OrderOptions::BigEndian);
        first.extend(second);
        assert_eq!(first, at_once);
        assert_eq!(part, all);
    }
}

#[test]
fn leftover_holds_no_frame() {
    let mut buffer = vec![1u8, 4, 3, 1, 2];
    let messages =
        extract_messages_from_buffer(&mut buffer, &BytesOptions::U8, &OrderOptions::BigEndian);
    assert_eq!(messages, vec![vec![4u8]]);
    assert_eq!(buffer, vec![3u8, 1, 2]);
    let again =
        extract_messages_from_buffer(&mut buffer, &BytesOptions::U8, &OrderOptions::BigEndian);
    assert!(again.is_empty());
    assert_eq!(buffer, vec![3u8, 1, 2]);
}

#[test]
fn signed_header_round_trip() {
    for value in [ReadValue::I16(-300), ReadValue::I32(i32::MIN), ReadValue::U16(513)] {
        for order in [OrderOptions::LittleEndian, OrderOptions::BigEndian] {
            let bytes = value_to_bytes(&value, &order);
            let kind = match value {
                ReadValue::I16(_) => BytesOptions::I16,
                ReadValue::I32(_) => BytesOptions::I32,
                _ => BytesOptions::U16,
            };
            assert_eq!(parse_value_from_bytes(&bytes, &kind, &order), value);
        }
    }
}

#[test]
fn float_kind_on_short_buffer_takes_nothing() {
    let mut buffer = vec![1u8, 2, 3];
    let messages =
        extract_messages_from_buffer(&mut buffer, &BytesOptions::F32, &OrderOptions::BigEndian);
    assert!(messages.is_empty());
    assert_eq!(buffer, vec![1u8, 2, 3]);
    let mut short = vec![9u8; 7];
    let none =
        extract_messages_from_buffer(&mut short, &BytesOptions::F64, &OrderOptions::LittleEndian);
    assert!(none.is_empty());
    assert_eq!(short, vec![9u8; 7]);
}

use brd::mini_parser::{get_slice_range, Cursor, IOErrorKind, MiniParser, MiniParserError};

#[test]
fn test_get_slice_range() {
    let data = &[0, 1, 2, 3, 4, 5, 6, 7, 8, 9];
    assert_eq!(get_slice_range(data, 0..6).unwrap(), &[0, 1, 2, 3, 4, 5]);
    assert_eq!(get_slice_range(data, 7..10).unwrap(), &[7, 8, 9]);
    get_slice_range(data, 5..15).unwrap_err();
    get_slice_range(data, 20..25).unwrap_err();
}

#[test]
fn get_slice_range_rejects_a_reversed_range() {
    let data = &[0, 1, 2, 3];
    let (start, end) = (3, 1);
    assert_eq!(
        get_slice_range(data, start..end),
        Err(MiniParserError::IOError(IOErrorKind::UnexpectedEof))
    );
    assert_eq!(get_slice_range(data, 4..4).unwrap(), &[] as &[u8]);
}

#[test]
fn cursor_reads_little_endian_numbers() {
    let data = [0x34, 0x12, 0x78, 0x56, 0x34, 0x12, 0xfe, 0xff, 0xff, 0xff, 0x01];
    let mut cursor = Cursor::new(&data);
    assert_eq!(cursor.remaining_len(), 11);
    assert_eq!(cursor.read_u16_le(), Ok(0x1234));
    assert_eq!(cursor.read_u32_le(), Ok(0x12345678));
    assert_eq!(cursor.read_i32_le(), Ok(-2));
    assert_eq!(cursor.remaining_len(), 1);
    assert_eq!(cursor.read_u16_le(), Err(IOErrorKind::UnexpectedEof));
    assert_eq!(cursor.read_u32_le(), Err(IOErrorKind::UnexpectedEof));
    assert_eq!(cursor.read_i32_le(), Err(IOErrorKind::UnexpectedEof));
    // a failed read takes nothing
    assert_eq!(cursor.remaining_len(), 1);
    assert_eq!(cursor.read_to_end(), &[0x01]);
    assert_eq!(cursor.remaining_len(), 0);
}

#[test]
fn cursor_read_exact_takes_the_next_bytes() {
    let data = [1, 2, 3, 4, 5];
    let mut cursor = Cursor::new(&data);
    assert_eq!(cursor.read_exact(2), Ok(&[1u8, 2][..]));
    assert_eq!(cursor.read_exact(4), Err(IOErrorKind::UnexpectedEof));
    assert_eq!(cursor.read_exact(0), Ok(&[][..]));
    assert_eq!(cursor.read_exact(3), Ok(&[3u8, 4, 5][..]));
}

#[test]
fn read_n_i32_reads_all_or_nothing() {
    let numbers = [1i32, -1, i32::MAX, i32::MIN, 0x01020304];
    let mut data = Vec::new();
    for number in numbers {
        data.extend_from_slice(&number.to_le_bytes());
    }
    data.push(0xaa);
    let mut cursor = Cursor::new(&data);
    assert_eq!(cursor.read_n_i32(5), Ok(numbers.to_vec()));
    assert_eq!(cursor.remaining_len(), 1);
    let mut cursor = Cursor::new(&data);
    assert_eq!(
        cursor.read_n_i32(6),
        Err(MiniParserError::IOError(IOErrorKind::UnexpectedEof))
    );
    assert_eq!(cursor.remaining_len(), 21);
    assert_eq!(cursor.read_n_i32(0), Ok(vec![]));
    assert_eq!(
        cursor.read_n_i32(usize::MAX),
        Err(MiniParserError::TryFromIntError)
    );
}

#[test]
fn read_string_strips_nul_and_stops_at_the_end() {
    let data = b"WB\0ND\0rest";
    let mut cursor = Cursor::new(data);
    assert_eq!(cursor.read_string(6), Ok(String::from("WBND")));
    assert_eq!(cursor.remaining_len(), 4);
    assert_eq!(cursor.read_string(64), Ok(String::from("rest")));
    assert_eq!(cursor.read_string(3), Ok(String::new()));
}

#[test]
fn read_string_rejects_invalid_utf8() {
    let data = [0x61, 0xff, 0x62, 0x63];
    let mut cursor = Cursor::new(&data);
    assert_eq!(
        cursor.read_string(3),
        Err(MiniParserError::IOError(IOErrorKind::InvalidData))
    );
    // the bytes are gone all the same
    assert_eq!(cursor.remaining_len(), 1);
}

#[test]
fn read_string_decodes_utf8() {
    let text = "a\u{e9}\u{2190}z";
    let mut cursor = Cursor::new(text.as_bytes());
    assert_eq!(cursor.read_string(text.len()), Ok(String::from(text)));
}

use brd::ddr::arc::{CueEntry, Cue, Error, RawFile, ARC, MAGIC};
use brd::mini_parser::{IOErrorKind, MiniParserError};
use brd::name_map::NameMap;

#[test]
fn test_cue_entry_parse() {
    assert_eq!(
        CueEntry::parse(b"\xa0\x00\x00\x00\xc0\x01\x00\x00\x5c\x04\x00\x00\x2d\x02\x00\x00").unwrap(),
        CueEntry {
            path_offset: 160,
            data_offset: 448,
            decompressed_size: 1116,
            compressed_size: 557,
        }
    );
}

#[test]
fn test_cue_entry_parse_path() {
    let cue_entry = CueEntry {
        path_offset: 7,
        ..Default::default()
    };
    cue_entry.parse_path(b"").unwrap_err();
    let path = cue_entry
        .parse_path(b"1234567test/file/name\0after path")
        .unwrap();
    assert_eq!(path, String::from("test/file/name"));
}

#[test]
fn test_parse_cue() {
    // only path_offset is required to have a useful value to test the cue
    let cue = Cue::parse(&[
        0x02, 0x00, 0x00, 0x00, // first file (path offset 2)
        0x00, 0x00, 0x00, 0x00,
        0x00, 0x00, 0x00, 0x00,
        0x00, 0x00, 0x00, 0x00,
        0x0f, 0x00, 0x00, 0x00, // second file (path offset 15)
        0x00, 0x00, 0x00, 0x00,
        0x00, 0x00, 0x00, 0x00,
        0x00, 0x00, 0x00, 0x00,
    ], b"abpath/to/file\0other/file\0z").unwrap();
    let expected_cue = NameMap::new()
        .insert(
            String::from("path/to/file"),
            CueEntry {
                path_offset: 2,
                ..Default::default()
            },
        )
        .insert(
            String::from("other/file"),
            CueEntry {
                path_offset: 15,
                ..Default::default()
            },
        );
    assert_eq!(cue, Cue(expected_cue));
}

#[test]
fn cue_entry_parse_needs_sixteen_bytes() {
    assert_eq!(
        CueEntry::parse(&[0u8; 15]),
        Err(Error::IOError(IOErrorKind::UnexpectedEof))
    );
    assert_eq!(CueEntry::parse(&[0u8; 16]), Ok(CueEntry::default()));
    assert_eq!(CueEntry::parse(&[0u8; 17]), Ok(CueEntry::default()));
}

#[test]
fn cue_entry_path_runs_to_the_end_without_nul() {
    let cue_entry = CueEntry {
        path_offset: 2,
        ..Default::default()
    };
    assert_eq!(cue_entry.parse_path(b"abcd").unwrap(), "cd");
    assert_eq!(cue_entry.parse_path(b"ab").unwrap(), "");
    assert_eq!(
        cue_entry.parse_path(b"a"),
        Err(Error::MiniParserError(MiniParserError::IOError(
            IOErrorKind::UnexpectedEof
        )))
    );
}

#[test]
fn cue_entry_path_replaces_invalid_utf8() {
    let cue_entry = CueEntry::default();
    assert_eq!(cue_entry.parse_path(b"a\xffb\0").unwrap(), "a\u{fffd}b");
}

#[test]
fn cue_parse_fails_on_a_short_last_entry() {
    let mut list = vec![0u8; 16];
    list.extend_from_slice(&[0u8; 5]);
    assert_eq!(
        Cue::parse(&list, b"x\0"),
        Err(Error::IOError(IOErrorKind::UnexpectedEof))
    );
}

#[test]
fn cue_parse_keeps_the_later_of_two_entries_with_one_path() {
    let mut list = Vec::new();
    for data_offset in [1u32, 2u32] {
        list.extend_from_slice(&0u32.to_le_bytes());
        list.extend_from_slice(&data_offset.to_le_bytes());
        list.extend_from_slice(&0u32.to_le_bytes());
        list.extend_from_slice(&0u32.to_le_bytes());
    }
    let cue = Cue::parse(&list, b"same\0").unwrap();
    assert_eq!(cue.0.len(), 1);
    assert_eq!(cue.0.get("same").unwrap().data_offset, 2);
}

/// An archive with the files `a.txt` (stored as it is) and `b.bin` (stored
/// in three bytes, five bytes long).
fn small_archive() -> Vec<u8> {
    let mut data = Vec::new();
    for number in [MAGIC, 1, 2, 0] {
        data.extend_from_slice(&number.to_le_bytes());
    }
    // path offset, data offset, decompressed size, compressed size
    for number in [48u32, 60, 4, 4, 54, 64, 5, 3] {
        data.extend_from_slice(&number.to_le_bytes());
    }
    assert_eq!(data.len(), 48);
    data.extend_from_slice(b"a.txt\0b.bin\0");
    data.extend_from_slice(b"textxyz");
    data
}

#[test]
fn arc_parse_lists_the_files() {
    let data = small_archive();
    let arc = ARC::parse(&data).unwrap();
    assert_eq!(arc.version(), 1);
    assert_eq!(arc.file_count(), 2);
    assert!(arc.has_file("a.txt"));
    assert!(arc.has_file("b.bin"));
    assert!(!arc.has_file("c"));
    assert_eq!(
        arc.file_paths(),
        vec![&String::from("a.txt"), &String::from("b.bin")]
    );
}

#[test]
fn arc_parse_rejects_another_magic() {
    let mut data = small_archive();
    data[0] = 0x21;
    assert_eq!(
        ARC::parse(&data),
        Err(Error::InvalidMagic {
            expected: 0x19751120,
            found: 0x19751121
        })
    );
}

#[test]
fn arc_parse_rejects_short_data() {
    let data = small_archive();
    assert_eq!(
        ARC::parse(&data[..3]),
        Err(Error::IOError(IOErrorKind::UnexpectedEof))
    );
    assert_eq!(
        ARC::parse(&data[..15]),
        Err(Error::IOError(IOErrorKind::UnexpectedEof))
    );
    assert_eq!(
        ARC::parse(&data[..47]),
        Err(Error::IOError(IOErrorKind::UnexpectedEof))
    );
}

#[test]
fn arc_get_raw_file_gives_the_stored_bytes() {
    let data = small_archive();
    let arc = ARC::parse(&data).unwrap();
    let stored = arc.get_raw_file("a.txt").unwrap().unwrap();
    assert_eq!(stored.data, b"text");
    assert!(!stored.is_compressed());
    assert_eq!(stored.check(stored.data.to_vec()), Ok(b"text".to_vec()));
    let packed = arc.get_raw_file("b.bin").unwrap().unwrap();
    assert_eq!(packed.data, b"xyz");
    assert_eq!(packed.decompressed_size, 5);
    assert!(packed.is_compressed());
    assert!(arc.get_raw_file("missing").unwrap().is_none());
}

#[test]
fn arc_get_raw_file_fails_beyond_the_archive() {
    let mut data = small_archive();
    // the second file now takes four bytes, one more than there is
    data[44] = 4;
    let arc = ARC::parse(&data).unwrap();
    assert_eq!(
        arc.get_raw_file("b.bin").map(|file| file.is_some()),
        Err(Error::MiniParserError(MiniParserError::IOError(
            IOErrorKind::UnexpectedEof
        )))
    );
}

#[test]
fn raw_file_check_compares_the_size() {
    let file = RawFile {
        data: b"xyz",
        decompressed_size: 5,
    };
    assert_eq!(file.check(vec![1, 2, 3, 4, 5]), Ok(vec![1, 2, 3, 4, 5]));
    assert_eq!(
        file.check(vec![1, 2, 3]),
        Err(Error::DecompressionSize {
            expected: 5,
            found: 3
        })
    );
}

#[test]
fn cue_entry_find_path_stops_at_the_first_nul() {
    let cue_entry = CueEntry {
        path_offset: 1,
        ..Default::default()
    };
    assert_eq!(cue_entry.find_path(b"xab\0cd\0"), Ok(&b"ab"[..]));
    assert_eq!(cue_entry.find_path(b"x\0"), Ok(&b""[..]));
    assert_eq!(cue_entry.find_path(b"x\xff\xfe"), Ok(&b"\xff\xfe"[..]));
    assert_eq!(
        cue_entry.find_path(b""),
        Err(Error::MiniParserError(MiniParserError::IOError(
            IOErrorKind::UnexpectedEof
        )))
    );
}

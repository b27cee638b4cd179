use brd::ddr::musicdb::{Entry, MusicDB, NumberError, XMLList};

#[test]
fn xml_list_parse_reads_numbers_between_spaces() {
    assert_eq!(
        XMLList::parse("3 5 8 11 0 4 6 9 12 0"),
        Ok(XMLList(vec![3, 5, 8, 11, 0, 4, 6, 9, 12, 0]))
    );
    assert_eq!(XMLList::parse("255"), Ok(XMLList(vec![255])));
    assert_eq!(XMLList::parse("+7 007"), Ok(XMLList(vec![7, 7])));
}

#[test]
fn xml_list_parse_rejects_what_is_no_number() {
    assert_eq!(XMLList::parse(""), Err(NumberError::InvalidDigit));
    assert_eq!(XMLList::parse("1  2"), Err(NumberError::InvalidDigit));
    assert_eq!(XMLList::parse("1 2 "), Err(NumberError::InvalidDigit));
    assert_eq!(XMLList::parse(" 1"), Err(NumberError::InvalidDigit));
    assert_eq!(XMLList::parse("1 -2"), Err(NumberError::InvalidDigit));
    assert_eq!(XMLList::parse("+"), Err(NumberError::InvalidDigit));
    assert_eq!(XMLList::parse("1 x"), Err(NumberError::InvalidDigit));
    assert_eq!(XMLList::parse("1\u{e9}"), Err(NumberError::InvalidDigit));
    assert_eq!(XMLList::parse("256"), Err(NumberError::PosOverflow));
    assert_eq!(
        XMLList::parse("1 99999999999999999999999"),
        Err(NumberError::PosOverflow)
    );
    // the first item that is no number decides
    assert_eq!(XMLList::parse("300 x"), Err(NumberError::PosOverflow));
    assert_eq!(XMLList::parse("x 300"), Err(NumberError::InvalidDigit));
}

fn song(mcode: u32, basename: &str) -> Entry {
    Entry {
        mcode,
        basename: basename.to_string(),
        title: format!("title of {}", basename),
        artist: String::from("artist"),
        bpmmax: 150,
        series: 1,
        diff_lv: XMLList(vec![1; 10]),
    }
}

#[test]
fn get_entry_from_basename_finds_the_first_such_song() {
    let musicdb = MusicDB {
        music: vec![song(1, "abcd"), song(2, "efgh"), song(3, "abcd")],
    };
    assert_eq!(musicdb.get_entry_from_basename("abcd").unwrap().mcode, 1);
    assert_eq!(musicdb.get_entry_from_basename("efgh").unwrap().mcode, 2);
    assert!(musicdb.get_entry_from_basename("abc").is_none());
    assert!(musicdb.get_entry_from_basename("").is_none());
}

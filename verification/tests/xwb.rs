use brd::mini_parser::{IOErrorKind, MiniParserError};
use brd::xact3::adpcm::{build_wav, WaveFormat};
use brd::xact3::xwb::{
    Entry, Error, Format, FormatTag, Header, Info, SegmentPosition, Sound, WaveBank,
};

/// The bits of a format with ADPCM sound.
fn adpcm_format(channels: u32, sample_rate: u32, alignment: u32) -> u32 {
    2 | channels << 2 | sample_rate << 5 | alignment << 23
}

#[test]
fn format_from_takes_the_fields_from_the_bits() {
    assert_eq!(
        Format::from(adpcm_format(2, 44100, 48)),
        Format {
            tag: FormatTag::ADPCM,
            channels: 2,
            sample_rate: 44100,
            alignment: 48
        }
    );
    assert_eq!(
        Format::from(u32::MAX),
        Format {
            tag: FormatTag::WMA,
            channels: 7,
            sample_rate: 0x3_ffff,
            alignment: 255
        }
    );
    assert_eq!(Format::from(0).tag, FormatTag::PCM);
    assert_eq!(Format::from(1).tag, FormatTag::XMA);
}

#[test]
fn wave_format_try_from_wants_adpcm_with_a_channel() {
    assert_eq!(
        WaveFormat::try_from(Format::from(adpcm_format(2, 44100, 48))),
        Ok(WaveFormat {
            channels: 2,
            sample_rate: 44100,
            block_align: 140
        })
    );
    assert_eq!(
        WaveFormat::try_from(Format::from(adpcm_format(0, 44100, 48))),
        Err(Error::NoChannels)
    );
    assert_eq!(
        WaveFormat::try_from(Format::from(1)),
        Err(Error::UnsupportedFormat(FormatTag::XMA))
    );
    assert_eq!(
        WaveFormat::try_from(Format {
            tag: FormatTag::ADPCM,
            channels: 1000,
            sample_rate: 1,
            alignment: 255
        }),
        Err(Error::TryFromIntError)
    );
}

#[test]
fn segment_position_get_from_cuts_the_segment_out() {
    let data = [0u8, 1, 2, 3, 4, 5];
    let position = |offset, length| SegmentPosition { offset, length };
    assert_eq!(position(2, 3).get_from(&data), Ok(&data[2..5]));
    assert_eq!(position(6, 0).get_from(&data), Ok(&data[6..]));
    assert_eq!(
        position(4, 3).get_from(&data),
        Err(MiniParserError::IOError(IOErrorKind::UnexpectedEof))
    );
    assert_eq!(
        position(usize::MAX, 2).get_from(&data),
        Err(MiniParserError::IOError(IOErrorKind::UnexpectedEof))
    );
}

fn numbers(values: &[u32]) -> Vec<u8> {
    values.iter().flat_map(|value| value.to_le_bytes()).collect()
}

fn header(positions: [(u32, u32); 5]) -> Vec<u8> {
    let mut data = b"WBND".to_vec();
    data.extend(numbers(&[43, 42]));
    for (offset, length) in positions {
        data.extend(numbers(&[offset, length]));
    }
    data
}

#[test]
fn header_parse_reads_the_five_positions() {
    let data = header([(52, 92), (144, 48), (0, 0), (192, 8), (200, 9)]);
    let parsed = Header::parse(&data).unwrap();
    assert_eq!(
        parsed.segment_positions,
        vec![
            SegmentPosition {
                offset: 52,
                length: 92
            },
            SegmentPosition {
                offset: 144,
                length: 48
            },
            SegmentPosition {
                offset: 0,
                length: 0
            },
            SegmentPosition {
                offset: 192,
                length: 8
            },
            SegmentPosition {
                offset: 200,
                length: 9
            },
        ]
    );
}

#[test]
fn header_parse_wants_the_magic_word() {
    let mut data = header([(0, 0); 5]);
    data[3] = b'X';
    assert_eq!(
        Header::parse(&data).map(|_| ()),
        Err(Error::InvalidMagic(String::from("WBNX")))
    );
    data[3] = 0xff;
    assert_eq!(
        Header::parse(&data).map(|_| ()),
        Err(Error::MiniParserError(MiniParserError::IOError(
            IOErrorKind::InvalidData
        )))
    );
    assert_eq!(
        Header::parse(b"WB").map(|_| ()),
        Err(Error::InvalidMagic(String::from("WB")))
    );
    let data = header([(0, 0); 5]);
    assert_eq!(
        Header::parse(&data[..51]).map(|_| ()),
        Err(Error::IOError(IOErrorKind::UnexpectedEof))
    );
}

fn info(name: &str, entry_name_element_size: u32) -> Vec<u8> {
    let mut data = numbers(&[0, 2]);
    let mut name = name.as_bytes().to_vec();
    name.resize(64, 0);
    data.extend(name);
    data.extend(numbers(&[24, entry_name_element_size, 2048, 0, 0]));
    data
}

#[test]
fn info_parse_reads_the_name_and_the_sizes() {
    let parsed = Info::parse(&info("Bank", 4)).unwrap();
    assert_eq!(parsed.entry_count, 2);
    assert_eq!(parsed.name, "Bank");
    assert_eq!(parsed.entry_name_element_size, 4);
}

#[test]
fn info_parse_reports_each_error() {
    let data = info("Bank", 4);
    assert_eq!(
        Info::parse(&data[..7]).map(|_| ()),
        Err(Error::IOError(IOErrorKind::UnexpectedEof))
    );
    assert_eq!(
        Info::parse(&data[..40]).map(|_| ()),
        Err(Error::IOError(IOErrorKind::UnexpectedEof))
    );
    assert_eq!(
        Info::parse(&data[..91]).map(|_| ()),
        Err(Error::IOError(IOErrorKind::UnexpectedEof))
    );
    let mut data = data;
    data[10] = 0xff;
    assert_eq!(
        Info::parse(&data).map(|_| ()),
        Err(Error::MiniParserError(MiniParserError::IOError(
            IOErrorKind::InvalidData
        )))
    );
}

fn entry(format: u32, data_offset: u32, data_length: u32) -> Vec<u8> {
    numbers(&[0, format, data_offset, data_length, 0, 0])
}

#[test]
fn entry_parse_reads_the_format_and_the_place() {
    let parsed = Entry::parse(&entry(adpcm_format(1, 22050, 20), 7, 9)).unwrap();
    assert_eq!(parsed.name, "");
    assert_eq!(
        parsed.format,
        Format {
            tag: FormatTag::ADPCM,
            channels: 1,
            sample_rate: 22050,
            alignment: 20
        }
    );
    assert_eq!(parsed.data_offset, 7);
    assert_eq!(parsed.data_length, 9);
    assert_eq!(
        Entry::parse(&[0; 23]).map(|_| ()),
        Err(Error::IOError(IOErrorKind::UnexpectedEof))
    );
}

/// A bank with the sounds `a` (bytes 0 to 5 of the sound data) and `bc`
/// (bytes 5 to 9), and a third without a name if `third` is set.
fn bank(third: bool) -> Vec<u8> {
    let entries = if third { 72 } else { 48 };
    let names = 52 + 92 + entries;
    let mut data = header([
        (52, 92),
        (144, entries),
        (0, 0),
        (names, 8),
        (names + 8, 9),
    ]);
    data.extend(info("Ba\0nk", 4));
    data.extend(entry(adpcm_format(2, 44100, 48), 0, 5));
    data.extend(entry(adpcm_format(1, 22050, 20), 5, 4));
    if third {
        data.extend(entry(1, 9, 0));
    }
    data.extend_from_slice(b"a\0\0\0bc\0\0");
    data.extend_from_slice(b"123456789");
    data
}

#[test]
fn wave_bank_parse_reads_the_sounds() {
    let data = bank(false);
    let wave_bank = WaveBank::parse(&data).unwrap();
    assert_eq!(wave_bank.name, "Bank");
    assert_eq!(wave_bank.sounds.len(), 2);
    assert_eq!(
        wave_bank.sounds.keys(),
        vec![&String::from("a"), &String::from("bc")]
    );
    let first = wave_bank.sounds.get("a").unwrap();
    assert_eq!(first.size, 5);
    let format = WaveFormat {
        channels: 2,
        sample_rate: 44100,
        block_align: 140,
    };
    assert_eq!(first.to_wav(), Ok(build_wav(format, b"12345").unwrap()));
    let second = wave_bank.sounds.get("bc").unwrap();
    assert_eq!(second.size, 4);
    let format = WaveFormat {
        channels: 1,
        sample_rate: 22050,
        block_align: 42,
    };
    assert_eq!(second.to_wav(), Ok(build_wav(format, b"6789").unwrap()));
}

#[test]
fn wave_bank_parse_names_a_sound_without_a_name_by_its_index() {
    let data = bank(true);
    let wave_bank = WaveBank::parse(&data).unwrap();
    assert_eq!(
        wave_bank.sounds.keys(),
        vec![&String::from("a"), &String::from("bc"), &String::from("2")]
    );
    let third = wave_bank.sounds.get("2").unwrap();
    assert_eq!(third.size, 0);
    assert_eq!(
        third.to_wav(),
        Err(Error::UnsupportedFormat(FormatTag::XMA))
    );
}

#[test]
fn wave_bank_parse_reports_each_error() {
    let data = bank(false);
    assert_eq!(
        WaveBank::parse(&data[..51]).map(|_| ()),
        Err(Error::MiniParserError(MiniParserError::IOError(
            IOErrorKind::UnexpectedEof
        )))
    );
    assert_eq!(
        WaveBank::parse(&data[..data.len() - 1]).map(|_| ()),
        Err(Error::MiniParserError(MiniParserError::IOError(
            IOErrorKind::UnexpectedEof
        )))
    );
    let mut wrong = data.clone();
    wrong[0] = b'X';
    assert_eq!(
        WaveBank::parse(&wrong).map(|_| ()),
        Err(Error::InvalidMagic(String::from("XBND")))
    );
    // the second sound now ends after the sound data
    let mut beyond = data.clone();
    beyond[144 + 24 + 12] = 5;
    assert_eq!(
        WaveBank::parse(&beyond).map(|_| ()),
        Err(Error::MiniParserError(MiniParserError::IOError(
            IOErrorKind::UnexpectedEof
        )))
    );
    // the first segment is too short for what a bank says of itself
    let mut short = data;
    short[16] = 91;
    assert_eq!(
        WaveBank::parse(&short).map(|_| ()),
        Err(Error::IOError(IOErrorKind::UnexpectedEof))
    );
}

#[test]
fn sound_to_wav_rejects_what_is_no_adpcm_sound() {
    let sound = |format| Sound::new(Format::from(format), b"1234", 4);
    assert_eq!(
        sound(0).to_wav(),
        Err(Error::UnsupportedFormat(FormatTag::PCM))
    );
    assert_eq!(
        sound(3).to_wav(),
        Err(Error::UnsupportedFormat(FormatTag::WMA))
    );
    assert_eq!(
        sound(adpcm_format(0, 44100, 48)).to_wav(),
        Err(Error::NoChannels)
    );
    // 134217727 blocks of 22000 bytes in a second
    let odd = Format {
        tag: FormatTag::ADPCM,
        channels: 1000,
        sample_rate: u32::MAX,
        alignment: 0,
    };
    assert_eq!(
        Sound::new(odd, b"1234", 4).to_wav(),
        Err(Error::TryFromIntError)
    );
}

#[test]
fn wave_bank_read_names_cuts_the_segment_into_names() {
    assert_eq!(
        WaveBank::read_names(b"ab\0\0cd\0\0e", 4),
        vec![String::from("ab\0\0"), String::from("cd\0\0")]
    );
    assert_eq!(
        WaveBank::read_names(b"a\xffb", 3),
        vec![String::from("a\u{fffd}b")]
    );
    assert!(WaveBank::read_names(b"abc", 0).is_empty());
    assert!(WaveBank::read_names(b"abc", 4).is_empty());
}

#[test]
fn wave_bank_collect_sounds_names_the_sounds() {
    let mut entries = entry(adpcm_format(2, 44100, 48), 0, 2);
    entries.extend(entry(adpcm_format(1, 22050, 20), 2, 1));
    entries.extend(entry(0, 3, 0));
    // what is left of the segment is no entry
    entries.extend_from_slice(&[0; 23]);
    let names = vec![String::from("fi\0rst\0"), String::from("2")];
    let sounds = WaveBank::collect_sounds(&entries, &names, b"abc").unwrap();
    // the third sound is named by its index, as the second is by its name
    assert_eq!(
        sounds.keys(),
        vec![&String::from("first"), &String::from("2")]
    );
    assert_eq!(sounds.get("first").unwrap().size, 2);
    assert_eq!(sounds.get("2").unwrap().size, 0);
    assert_eq!(
        sounds.get("2").unwrap().to_wav(),
        Err(Error::UnsupportedFormat(FormatTag::PCM))
    );
    assert_eq!(
        WaveBank::collect_sounds(&entries, &names, b"ab").map(|sounds| sounds.len()),
        Err(Error::MiniParserError(MiniParserError::IOError(
            IOErrorKind::UnexpectedEof
        )))
    );
}

#[test]
fn wave_bank_song_falls_back_on_the_longer_of_two_sounds() {
    let data = bank(false);
    let wave_bank = WaveBank::parse(&data).unwrap();
    assert_eq!(wave_bank.song("a").unwrap().size, 5);
    assert_eq!(wave_bank.song("bc").unwrap().size, 4);
    assert_eq!(wave_bank.song("other").unwrap().size, 5);
    let data = bank(true);
    let wave_bank = WaveBank::parse(&data).unwrap();
    assert_eq!(wave_bank.song("2").unwrap().size, 0);
    assert!(wave_bank.song("other").is_none());
}

#[test]
fn wave_bank_song_takes_the_second_sound_if_it_is_longer() {
    let mut entries = entry(adpcm_format(1, 22050, 20), 0, 1);
    entries.extend(entry(adpcm_format(1, 22050, 20), 1, 2));
    let names = vec![String::from("preview"), String::from("full")];
    let wave_bank = WaveBank {
        name: String::from("Bank"),
        sounds: WaveBank::collect_sounds(&entries, &names, b"abc").unwrap(),
    };
    assert_eq!(wave_bank.song("song").unwrap().size, 2);
    assert_eq!(wave_bank.song("preview").unwrap().size, 1);
}

//! Wave banks: a file of five segments, which hold the name of the bank, the
//! entries of its sounds, their names and the sound data.

use crate::mini_parser::{
    decode_utf8_lossy, get_slice_range, le_u32, strip_nul, utf8_lossy, without_nul, Cursor, IOErrorKind,
    MiniParser, MiniParserError,
};
use crate::name_map::{Listing, NameMap};
use crate::utils::{decimal, push_decimal};
use crate::xact3::adpcm;
use crate::xact3::adpcm::{build_wav, wav_file, WaveFormat};
use vstd::prelude::*;
use vstd::slice::slice_subrange;
use vstd::string::StringExecFns;

verus! {

/// An error as a value.
pub enum ErrorView {
    UnsupportedFormat(FormatTag),
    InvalidMagic(Seq<char>),
    NoChannels,
    IOError(IOErrorKind),
    MiniParserError(MiniParserError),
    ADPCMError(adpcm::Error),
    TryFromIntError,
}

/// Why a wave bank cannot be read or a sound not be written.
#[derive(Clone, Debug, PartialEq)]
pub enum Error {
    /// The sound has a format that cannot be written to a wave file.
    UnsupportedFormat(FormatTag),
    /// The file does not start with the word `WBND`.
    InvalidMagic(String),
    /// The sound has no channel.
    NoChannels,
    IOError(IOErrorKind),
    MiniParserError(MiniParserError),
    ADPCMError(adpcm::Error),
    /// A number in the file is out of the range of the value it stands for.
    TryFromIntError,
}

impl View for Error {
    type V = ErrorView;

    open spec fn view(&self) -> ErrorView {
        match self {
            Error::UnsupportedFormat(tag) => ErrorView::UnsupportedFormat(*tag),
            Error::InvalidMagic(found) => ErrorView::InvalidMagic(found@),
            Error::NoChannels => ErrorView::NoChannels,
            Error::IOError(kind) => ErrorView::IOError(*kind),
            Error::MiniParserError(error) => ErrorView::MiniParserError(*error),
            Error::ADPCMError(error) => ErrorView::ADPCMError(*error),
            Error::TryFromIntError => ErrorView::TryFromIntError,
        }
    }
}

/// The error for a buffer that ends too early.
pub open spec fn eof() -> ErrorView {
    ErrorView::IOError(IOErrorKind::UnexpectedEof)
}

/// The kind of encoding of a sound.
#[derive(Clone, Copy, Debug, PartialEq, Eq, Structural)]
pub enum FormatTag {
    PCM,
    XMA,
    ADPCM,
    WMA,
}

impl FormatTag {
    /// The tag with the number `number`, of which the lowest two bits count.
    pub open spec fn of(number: int) -> FormatTag {
        if number % 4 == 0 {
            FormatTag::PCM
        } else if number % 4 == 1 {
            FormatTag::XMA
        } else if number % 4 == 2 {
            FormatTag::ADPCM
        } else {
            FormatTag::WMA
        }
    }
}

/// The format of a sound.
#[derive(Clone, Copy, Debug, PartialEq, Eq, Structural)]
pub struct Format {
    pub tag: FormatTag,
    pub channels: u16,
    pub sample_rate: u32,
    pub alignment: u8,
}

impl Format {
    /// The format that the bits of `format` encode: from the lowest bit on,
    /// two bits for the tag, three for the channels, eighteen for the sample
    /// rate and eight for the alignment.
    pub open spec fn of(format: u32) -> Format {
        Format {
            tag: FormatTag::of(format as int),
            channels: (format / 4 % 8) as u16,
            sample_rate: (format / 32 % 0x4_0000) as u32,
            alignment: (format / 0x80_0000 % 0x100) as u8,
        }
    }

    /// What converting the format gives: the format of a wave file for ADPCM
    /// sound with a channel, in which a block takes 22 bytes more than the
    /// alignment for each channel, as far as the size of a block fits the
    /// field for it.
    pub open spec fn wave_format(self) -> Result<WaveFormat, ErrorView> {
        if self.tag != FormatTag::ADPCM {
            Err(ErrorView::UnsupportedFormat(self.tag))
        } else if self.channels == 0 {
            Err(ErrorView::NoChannels)
        } else if (self.alignment + 22) * self.channels > u16::MAX {
            Err(ErrorView::TryFromIntError)
        } else {
            Ok(
                WaveFormat {
                    channels: self.channels,
                    sample_rate: self.sample_rate,
                    block_align: ((self.alignment + 22) * self.channels) as u16,
                },
            )
        }
    }
}

impl From<u32> for Format {
    fn from(format: u32) -> (decoded: Self) {
        let tag = match format & 0b11 {
            0 => FormatTag::PCM,
            1 => FormatTag::XMA,
            2 => FormatTag::ADPCM,
            _ => FormatTag::WMA,
        };
        assert(format & 0b11 == format % 4 && (format >> 2) & 0b111 == format / 4 % 8 && (format >> 5) & 0x3_ffff
            == format / 32 % 0x4_0000 && (format >> 23) & 0xff == format / 0x80_0000 % 0x100) by (bit_vector);
        Format {
            tag,
            channels: ((format >> 2) & 0b111) as u16,
            sample_rate: (format >> 5) & 0x3_ffff,
            alignment: ((format >> 23) & 0xff) as u8,
        }
    }
}

impl vstd::std_specs::convert::FromSpecImpl<u32> for Format {
    open spec fn obeys_from_spec() -> bool {
        true
    }

    open spec fn from_spec(format: u32) -> Self {
        Format::of(format)
    }
}

impl TryFrom<Format> for WaveFormat {
    type Error = Error;

    fn try_from(format: Format) -> (wave_format: Result<Self, Error>)
        ensures
            match format.wave_format() {
                Ok(expected) => wave_format is Ok && wave_format->Ok_0 == expected,
                Err(error) => wave_format is Err && wave_format->Err_0@ == error,
            },
    {
        if format.tag != FormatTag::ADPCM {
            return Err(Error::UnsupportedFormat(format.tag));
        }
        if format.channels == 0 {
            return Err(Error::NoChannels);
        }
        let block: u32 = format.alignment as u32 + 22;
        let channels: u32 = format.channels as u32;
        assert(block * channels <= 277 * 0xffff) by (nonlinear_arith)
            requires
                0 <= block <= 277,
                0 <= channels <= 0xffff,
        ;
        let block_align: u32 = block * channels;
        if block_align > u16::MAX as u32 {
            return Err(Error::TryFromIntError);
        }
        Ok(WaveFormat { channels: format.channels, sample_rate: format.sample_rate, block_align: block_align as u16 })
    }
}

impl vstd::std_specs::convert::TryFromSpecImpl<Format> for WaveFormat {
    open spec fn obeys_try_from_spec() -> bool {
        false
    }

    open spec fn try_from_spec(format: Format) -> Result<Self, Error> {
        arbitrary()
    }
}

/// Where the file holds a segment.
#[derive(Clone, Copy, Debug, PartialEq, Eq, Structural)]
pub struct SegmentPosition {
    pub offset: usize,
    pub length: usize,
}

impl SegmentPosition {
    /// The bytes of the segment in `data`.
    pub open spec fn bytes(self, data: Seq<u8>) -> Result<Seq<u8>, MiniParserError> {
        if self.offset + self.length > data.len() {
            Err(MiniParserError::IOError(IOErrorKind::UnexpectedEof))
        } else {
            Ok(data.subrange(self.offset as int, self.offset + self.length))
        }
    }

    /// The position that eight bytes encode: an offset and a length.
    pub open spec fn of(bytes: Seq<u8>) -> SegmentPosition {
        SegmentPosition { offset: le_u32(bytes) as usize, length: le_u32(bytes.skip(4)) as usize }
    }

    /// Gets the bytes of the segment from the bytes of the file.
    pub fn get_from<'a>(&self, data: &'a [u8]) -> (segment: Result<&'a [u8], MiniParserError>)
        ensures
            match self.bytes(data@) {
                Ok(bytes) => segment is Ok && segment->Ok_0@ == bytes,
                Err(error) => segment is Err && segment->Err_0 == error,
            },
    {
        if self.length > data.len() || self.offset > data.len() - self.length {
            return Err(MiniParserError::IOError(IOErrorKind::UnexpectedEof));
        }
        get_slice_range(data, self.offset..self.offset + self.length)
    }
}

/// The head of a wave bank.
pub struct Header {
    pub segment_positions: Vec<SegmentPosition>,
}

impl Header {
    /// What [`Header::parse`] returns: the positions of the five segments.
    ///
    /// The head is the word `WBND`, two version numbers and the five
    /// positions, 52 bytes in all.
    pub open spec fn parsed(data: Seq<u8>) -> Result<Seq<SegmentPosition>, ErrorView> {
        let magic = if data.len() < 4 {
            data
        } else {
            data.take(4)
        };
        if !vstd::utf8::valid_utf8(magic) {
            Err(ErrorView::MiniParserError(MiniParserError::IOError(IOErrorKind::InvalidData)))
        } else if without_nul(vstd::utf8::decode_utf8(magic)) != "WBND"@ {
            Err(ErrorView::InvalidMagic(without_nul(vstd::utf8::decode_utf8(magic))))
        } else if data.len() < 52 {
            Err(eof())
        } else {
            Ok(Seq::new(5, |i: int| SegmentPosition::of(data.skip(12 + 8 * i))))
        }
    }

    /// Reads the head of a wave bank.
    pub fn parse(data: &[u8]) -> (header: Result<Self, Error>)
        ensures
            match Header::parsed(data@) {
                Ok(positions) => header is Ok && header->Ok_0.segment_positions@ == positions,
                Err(error) => header is Err && header->Err_0@ == error,
            },
    {
        let mut cursor = Cursor::new(data);
        let magic = match cursor.read_string(4) {
            Ok(magic) => magic,
            Err(error) => {
                return Err(Error::MiniParserError(error));
            },
        };
        if !same_string(&magic, "WBND") {
            return Err(Error::InvalidMagic(magic));
        }
        let _version = match cursor.read_u32_le() {
            Ok(version) => version,
            Err(kind) => {
                return Err(Error::IOError(kind));
            },
        };
        let _header_version = match cursor.read_u32_le() {
            Ok(header_version) => header_version,
            Err(kind) => {
                return Err(Error::IOError(kind));
            },
        };
        assert(cursor.remaining() =~= data@.skip(12));
        let mut segment_positions: Vec<SegmentPosition> = Vec::new();
        let mut i: usize = 0;
        while i < 5
            invariant
                i <= 5,
                12 + 8 * i <= data@.len(),
                Header::parsed(data@) is Ok || Header::parsed(data@) == Err::<Seq<SegmentPosition>, ErrorView>(eof()),
                Header::parsed(data@) is Ok <==> data@.len() >= 52,
                cursor.remaining() == data@.skip(12 + 8 * i),
                segment_positions@ == Seq::new(i as nat, |k: int| SegmentPosition::of(data@.skip(12 + 8 * k))),
            decreases 5 - i,
        {
            let ghost unread = cursor.remaining();
            let offset = match cursor.read_u32_le() {
                Ok(offset) => offset,
                Err(kind) => {
                    return Err(Error::IOError(kind));
                },
            };
            let length = match cursor.read_u32_le() {
                Ok(length) => length,
                Err(kind) => {
                    return Err(Error::IOError(kind));
                },
            };
            segment_positions.push(SegmentPosition { offset: offset as usize, length: length as usize });
            i = i + 1;
            proof {
                assert(unread.skip(4).skip(4) =~= data@.skip(12 + 8 * i));
                assert(segment_positions@ =~= Seq::new(i as nat, |k: int| SegmentPosition::of(data@.skip(12 + 8 * k))));
            }
        }
        assert(segment_positions@ =~= Header::parsed(data@)->Ok_0);
        Ok(Header { segment_positions })
    }
}

/// What a wave bank says of itself, as a value.
pub struct InfoView {
    pub entry_count: usize,
    pub name: Seq<char>,
    pub entry_name_element_size: usize,
}

/// What a wave bank says of itself.
#[derive(Debug)]
pub struct Info {
    pub entry_count: usize,
    pub name: String,
    pub entry_name_element_size: usize,
}

impl View for Info {
    type V = InfoView;

    open spec fn view(&self) -> InfoView {
        InfoView {
            entry_count: self.entry_count,
            name: self.name@,
            entry_name_element_size: self.entry_name_element_size,
        }
    }
}

impl Info {
    /// What [`Info::parse`] returns.
    ///
    /// The segment holds two numbers, of which the second is the number of
    /// entries, the name of the bank in 64 bytes, and five more numbers, of
    /// which the second is the size of an entry's name.
    pub open spec fn parsed(data: Seq<u8>) -> Result<InfoView, ErrorView> {
        let name = data.subrange(
            8,
            if data.len() < 72 {
                data.len() as int
            } else {
                72
            },
        );
        if data.len() < 8 {
            Err(eof())
        } else if !vstd::utf8::valid_utf8(name) {
            Err(ErrorView::MiniParserError(MiniParserError::IOError(IOErrorKind::InvalidData)))
        } else if data.len() < 92 {
            Err(eof())
        } else {
            Ok(
                InfoView {
                    entry_count: le_u32(data.skip(4)) as usize,
                    name: without_nul(vstd::utf8::decode_utf8(name)),
                    entry_name_element_size: le_u32(data.skip(76)) as usize,
                },
            )
        }
    }

    /// Reads what a wave bank says of itself from the first segment.
    pub fn parse(data: &[u8]) -> (info: Result<Self, Error>)
        ensures
            match Info::parsed(data@) {
                Ok(view) => info is Ok && info->Ok_0@ == view,
                Err(error) => info is Err && info->Err_0@ == error,
            },
    {
        let mut cursor = Cursor::new(data);
        let _flags = match cursor.read_u32_le() {
            Ok(flags) => flags,
            Err(kind) => {
                return Err(Error::IOError(kind));
            },
        };
        let entry_count = match cursor.read_u32_le() {
            Ok(entry_count) => entry_count,
            Err(kind) => {
                return Err(Error::IOError(kind));
            },
        };
        proof {
            assert(cursor.remaining() =~= data@.skip(8));
            if data@.len() < 72 {
                assert(data@.skip(8) =~= data@.subrange(8, data@.len() as int));
            } else {
                assert(data@.skip(8).take(64) =~= data@.subrange(8, 72));
            }
        }
        let name = match cursor.read_string(64) {
            Ok(name) => name,
            Err(error) => {
                return Err(Error::MiniParserError(error));
            },
        };
        let ghost unread = cursor.remaining();
        let _entry_meta_data_element_size = match cursor.read_u32_le() {
            Ok(size) => size,
            Err(kind) => {
                return Err(Error::IOError(kind));
            },
        };
        assert(unread =~= data@.skip(72));
        let entry_name_element_size = match cursor.read_u32_le() {
            Ok(size) => size,
            Err(kind) => {
                return Err(Error::IOError(kind));
            },
        };
        let _alignment = match cursor.read_u32_le() {
            Ok(alignment) => alignment,
            Err(kind) => {
                return Err(Error::IOError(kind));
            },
        };
        let _compact_format = match cursor.read_u32_le() {
            Ok(compact_format) => compact_format,
            Err(kind) => {
                return Err(Error::IOError(kind));
            },
        };
        let _build_time = match cursor.read_u32_le() {
            Ok(build_time) => build_time,
            Err(kind) => {
                return Err(Error::IOError(kind));
            },
        };
        proof {
            assert(data@.skip(72).skip(4) =~= data@.skip(76));
        }
        Ok(
            Info {
                entry_count: entry_count as usize,
                name,
                entry_name_element_size: entry_name_element_size as usize,
            },
        )
    }
}

/// The entry of a sound as a value.
pub struct EntryView {
    pub name: Seq<char>,
    pub format: Format,
    pub data_offset: usize,
    pub data_length: usize,
}

/// The entry of a sound.
#[derive(Debug)]
pub struct Entry {
    pub name: String,
    pub format: Format,
    pub data_offset: usize,
    pub data_length: usize,
}

impl View for Entry {
    type V = EntryView;

    open spec fn view(&self) -> EntryView {
        EntryView {
            name: self.name@,
            format: self.format,
            data_offset: self.data_offset,
            data_length: self.data_length,
        }
    }
}

impl Entry {
    /// What [`Entry::parse`] returns: an entry without a name.
    ///
    /// An entry is six numbers, of which the second is the format, the third
    /// the offset of the sound in the sound data and the fourth its length.
    pub open spec fn parsed(data: Seq<u8>) -> Result<EntryView, ErrorView> {
        if data.len() < 24 {
            Err(eof())
        } else {
            Ok(
                EntryView {
                    name: Seq::empty(),
                    format: Format::of(le_u32(data.skip(4)) as u32),
                    data_offset: le_u32(data.skip(8)) as usize,
                    data_length: le_u32(data.skip(12)) as usize,
                },
            )
        }
    }

    /// Reads the entry of a sound.
    pub fn parse(data: &[u8]) -> (entry: Result<Self, Error>)
        ensures
            match Entry::parsed(data@) {
                Ok(view) => entry is Ok && entry->Ok_0@ == view,
                Err(error) => entry is Err && entry->Err_0@ == error,
            },
    {
        let mut cursor = Cursor::new(data);
        let _flags_and_duration = match cursor.read_u32_le() {
            Ok(flags_and_duration) => flags_and_duration,
            Err(kind) => {
                return Err(Error::IOError(kind));
            },
        };
        let format = match cursor.read_u32_le() {
            Ok(format) => format,
            Err(kind) => {
                return Err(Error::IOError(kind));
            },
        };
        let data_offset = match cursor.read_u32_le() {
            Ok(data_offset) => data_offset,
            Err(kind) => {
                return Err(Error::IOError(kind));
            },
        };
        let data_length = match cursor.read_u32_le() {
            Ok(data_length) => data_length,
            Err(kind) => {
                return Err(Error::IOError(kind));
            },
        };
        let _loop_start = match cursor.read_u32_le() {
            Ok(loop_start) => loop_start,
            Err(kind) => {
                return Err(Error::IOError(kind));
            },
        };
        let _loop_length = match cursor.read_u32_le() {
            Ok(loop_length) => loop_length,
            Err(kind) => {
                return Err(Error::IOError(kind));
            },
        };
        proof {
            assert(data@.skip(4).skip(4) =~= data@.skip(8));
            assert(data@.skip(8).skip(4) =~= data@.skip(12));
        }
        Ok(
            Entry {
                name: String::new(),
                format: Format::from(format),
                data_offset: data_offset as usize,
                data_length: data_length as usize,
            },
        )
    }
}

/// A sound as a value.
pub struct SoundView {
    pub format: Format,
    pub data: Seq<u8>,
    pub size: usize,
}

impl SoundView {
    /// What [`Sound::to_wav`] returns: the wave file with the sound, or why
    /// there is none. The format has to be one for a wave file, with values
    /// that the header of a wave file can hold.
    pub open spec fn wav(self) -> Result<Seq<u8>, ErrorView> {
        match self.format.wave_format() {
            Ok(format) => if !format.valid() {
                Err(ErrorView::TryFromIntError)
            } else {
                match wav_file(format, self.data) {
                    Ok(file) => Ok(file),
                    Err(error) => Err(ErrorView::ADPCMError(error)),
                }
            },
            Err(error) => Err(error),
        }
    }
}

/// A sound of a wave bank.
#[derive(Clone, Copy, Debug)]
pub struct Sound<'a> {
    format: Format,
    data: &'a [u8],
    pub size: usize,
}

impl<'a> View for Sound<'a> {
    type V = SoundView;

    closed spec fn view(&self) -> SoundView {
        SoundView { format: self.format, data: self.data@, size: self.size }
    }
}

impl<'a> Sound<'a> {
    /// Creates a sound from its format and its data.
    pub fn new(format: Format, data: &'a [u8], size: usize) -> (sound: Self)
        ensures
            sound@ == (SoundView { format, data: data@, size }),
    {
        Sound { format, data, size }
    }

    /// Writes the sound to a wave file.
    pub fn to_wav(&self) -> (file: Result<Vec<u8>, Error>)
        ensures
            match self@.wav() {
                Ok(bytes) => file is Ok && file->Ok_0@ == bytes,
                Err(error) => file is Err && file->Err_0@ == error,
            },
    {
        let format = match WaveFormat::try_from(self.format) {
            Ok(format) => format,
            Err(error) => {
                return Err(error);
            },
        };
        if !format.is_valid() {
            return Err(Error::TryFromIntError);
        }
        match build_wav(format, self.data) {
            Ok(file) => Ok(file),
            Err(error) => Err(Error::ADPCMError(error)),
        }
    }
}

/// The names as texts.
pub open spec fn name_views(names: Seq<String>) -> Seq<Seq<char>> {
    Seq::new(names.len(), |i: int| names[i]@)
}

/// The sounds as values.
pub open spec fn sound_views<'a>(sounds: Listing<Sound<'a>>) -> Listing<SoundView> {
    Listing { names: sounds.names, values: Seq::new(sounds.values.len(), |i: int| sounds.values[i]@) }
}

/// A wave bank as a value.
pub struct WaveBankView {
    pub name: Seq<char>,
    pub sounds: Listing<SoundView>,
}

/// A wave bank: its name and its sounds by their names.
#[derive(Debug)]
pub struct WaveBank<'a> {
    pub name: String,
    pub sounds: NameMap<Sound<'a>>,
}

impl<'a> View for WaveBank<'a> {
    type V = WaveBankView;

    open spec fn view(&self) -> WaveBankView {
        WaveBankView { name: self.name@, sounds: sound_views(self.sounds.listing()) }
    }
}

impl<'a> WaveBank<'a> {
    /// The names that the segment `names` holds, each in `size` bytes.
    pub open spec fn entry_names(names: Seq<u8>, size: usize) -> Seq<Seq<char>> {
        if size == 0 {
            Seq::empty()
        } else {
            Seq::new(names.len() / (size as nat), |i: int| utf8_lossy(names.subrange(size * i, size * i + size)))
        }
    }

    /// The name of the sound with the index `i`: the name with that index,
    /// or the index itself where there are not as many names, in both cases
    /// without NUL characters.
    pub open spec fn sound_name(names: Seq<Seq<char>>, i: int) -> Seq<char> {
        without_nul(
            if i < names.len() {
                names[i]
            } else {
                decimal(i as nat)
            },
        )
    }

    /// The sounds of the first `n` entries of the segment `entries`, with
    /// their names from `names` and their data from the segment
    /// `wave_data`, or the error of the first entry whose data the segment
    /// does not hold. Of two sounds with one name the later one counts.
    pub open spec fn sounds(entries: Seq<u8>, names: Seq<Seq<char>>, wave_data: Seq<u8>, n: int) -> Result<
        Listing<SoundView>,
        ErrorView,
    >
        decreases n,
    {
        if n <= 0 {
            Ok(Listing::empty())
        } else {
            let entry = Entry::parsed(entries.subrange(24 * (n - 1), 24 * n))->Ok_0;
            match WaveBank::sounds(entries, names, wave_data, n - 1) {
                Ok(found) => if entry.data_offset + entry.data_length > wave_data.len() {
                    Err(ErrorView::MiniParserError(MiniParserError::IOError(IOErrorKind::UnexpectedEof)))
                } else {
                    Ok(
                        found.with(
                            WaveBank::sound_name(names, n - 1),
                            SoundView {
                                format: entry.format,
                                data: wave_data.subrange(
                                    entry.data_offset as int,
                                    entry.data_offset + entry.data_length,
                                ),
                                size: entry.data_length,
                            },
                        ),
                    )
                },
                Err(error) => Err(error),
            }
        }
    }

    /// What [`WaveBank::parse`] returns on the bytes of a file.
    ///
    /// The head gives the places of five segments, which all have to lie in
    /// the file. The first says what the bank is called and how long the
    /// name of an entry is, the second holds the entries, 24 bytes each, the
    /// fourth their names and the fifth the sound data.
    pub open spec fn parsed(data: Seq<u8>) -> Result<WaveBankView, ErrorView> {
        let header = Header::parsed(data.take(52));
        let positions = header->Ok_0;
        let info = Info::parsed(positions[0].bytes(data)->Ok_0);
        let entries = positions[1].bytes(data)->Ok_0;
        if data.len() < 52 {
            Err(ErrorView::MiniParserError(MiniParserError::IOError(IOErrorKind::UnexpectedEof)))
        } else if header is Err {
            Err(header->Err_0)
        } else if exists|i: int| 0 <= i < 5 && (#[trigger] positions[i]).bytes(data) is Err {
            Err(ErrorView::MiniParserError(MiniParserError::IOError(IOErrorKind::UnexpectedEof)))
        } else if info is Err {
            Err(info->Err_0)
        } else {
            match WaveBank::sounds(
                entries,
                WaveBank::entry_names(positions[3].bytes(data)->Ok_0, info->Ok_0.entry_name_element_size),
                positions[4].bytes(data)->Ok_0,
                entries.len() as int / 24,
            ) {
                Ok(sounds) => Ok(WaveBankView { name: info->Ok_0.name, sounds }),
                Err(error) => Err(error),
            }
        }
    }

    /// The sound of the song `basename`: the sound of that name or, where the
    /// bank has none and holds two sounds, the longer of the two, which are
    /// then taken for a song and the preview of it.
    pub fn song(&self, basename: &str) -> (sound: Option<&Sound<'a>>)
        ensures
            self.sounds.has(basename@) ==> sound is Some && *sound->0 == self.sounds.value(basename@),
            !self.sounds.has(basename@) && self.sounds.values().len() != 2 ==> sound is None,
            !self.sounds.has(basename@) && self.sounds.values().len() == 2 ==> sound is Some && *sound->0 == (
            if self.sounds.values()[1]@.size > self.sounds.values()[0]@.size {
                self.sounds.values()[1]
            } else {
                self.sounds.values()[0]
            }),
    {
        match self.sounds.get(basename) {
            Some(sound) => Some(sound),
            None => {
                if self.sounds.len() != 2 {
                    return None;
                }
                let first = self.sounds.value_at(0);
                let second = self.sounds.value_at(1);
                if second.size > first.size {
                    Some(second)
                } else {
                    Some(first)
                }
            },
        }
    }

    /// Reads a wave bank.
    pub fn parse(data: &'a [u8]) -> (wave_bank: Result<Self, Error>)
        ensures
            match WaveBank::parsed(data@) {
                Ok(view) => wave_bank is Ok && wave_bank->Ok_0@ == view,
                Err(error) => wave_bank is Err && wave_bank->Err_0@ == error,
            },
    {
        let head = match get_slice_range(data, 0..52) {
            Ok(head) => head,
            Err(error) => {
                return Err(Error::MiniParserError(error));
            },
        };
        assert(head@ =~= data@.take(52));
        let header = match Header::parse(head) {
            Ok(header) => header,
            Err(error) => {
                return Err(error);
            },
        };
        let segments = match header.segments(data) {
            Ok(segments) => segments,
            Err(error) => {
                return Err(Error::MiniParserError(error));
            },
        };
        let info = match Info::parse(segments[0]) {
            Ok(info) => info,
            Err(error) => {
                return Err(error);
            },
        };
        let entry_names = Self::read_names(segments[3], info.entry_name_element_size);
        let sounds = match Self::collect_sounds(segments[1], &entry_names, segments[4]) {
            Ok(sounds) => sounds,
            Err(error) => {
                return Err(error);
            },
        };
        Ok(WaveBank { name: info.name, sounds })
    }

    /// Reads the names of the entries, `size` bytes each, from their
    /// segment.
    pub fn read_names(names: &[u8], size: usize) -> (entry_names: Vec<String>)
        ensures
            name_views(entry_names@) == WaveBank::entry_names(names@, size),
    {
        let mut entry_names: Vec<String> = Vec::new();
        if size == 0 {
            assert(name_views(entry_names@) =~= WaveBank::entry_names(names@, size));
            return entry_names;
        }
        let count = names.len() / size;
        let mut i: usize = 0;
        while i < count
            invariant
                i <= count,
                size > 0,
                count == names@.len() / (size as nat),
                names@.len() <= usize::MAX,
                entry_names@.len() == i,
                forall|k: int|
                    0 <= k < i ==> (#[trigger] entry_names@[k])@ == utf8_lossy(
                        names@.subrange(size * k, size * k + size),
                    ),
            decreases count - i,
        {
            assert(0 <= size * i && size * i + size <= names@.len()) by (nonlinear_arith)
                requires
                    size > 0,
                    0 <= i < names@.len() / (size as nat),
            ;
            entry_names.push(decode_utf8_lossy(slice_subrange(names, size * i, size * i + size)));
            i = i + 1;
        }
        assert(name_views(entry_names@) =~= WaveBank::entry_names(names@, size));
        entry_names
    }

    /// Puts together the sounds of the entries in the segment `entries`,
    /// with their names from `names` and their data from the segment
    /// `wave_data`.
    pub fn collect_sounds(entries: &[u8], names: &Vec<String>, wave_data: &'a [u8]) -> (sounds: Result<
        NameMap<Sound<'a>>,
        Error,
    >)
        ensures
            match WaveBank::sounds(entries@, name_views(names@), wave_data@, entries@.len() as int / 24) {
                Ok(listing) => sounds is Ok && sound_views(sounds->Ok_0.listing()) == listing,
                Err(error) => sounds is Err && sounds->Err_0@ == error,
            },
    {
        let count = entries.len() / 24;
        let mut sounds: NameMap<Sound<'a>> = NameMap::new();
        assert(sound_views(sounds.listing()).values =~= Listing::<SoundView>::empty().values);
        let mut i: usize = 0;
        while i < count
            invariant
                i <= count,
                count == entries@.len() / 24,
                entries@.len() <= usize::MAX,
                WaveBank::sounds(entries@, name_views(names@), wave_data@, i as int) == Ok::<
                    Listing<SoundView>,
                    ErrorView,
                >(sound_views(sounds.listing())),
            decreases count - i,
        {
            proof {
                lemma_sounds_fail(entries@, name_views(names@), wave_data@, i as int + 1, count as int);
            }
            assert(24 * i + 24 <= entries@.len());
            let entry = match Entry::parse(slice_subrange(entries, 24 * i, 24 * i + 24)) {
                Ok(entry) => entry,
                Err(error) => {
                    return Err(error);
                },
            };
            let name = if i < names.len() {
                strip_nul(names[i].as_str())
            } else {
                let mut index = String::new();
                push_decimal(&mut index, i as u64);
                assert(index@ =~= decimal(i as nat));
                strip_nul(index.as_str())
            };
            if entry.data_length > wave_data.len() || entry.data_offset > wave_data.len() - entry.data_length {
                return Err(Error::MiniParserError(MiniParserError::IOError(IOErrorKind::UnexpectedEof)));
            }
            let sound = Sound::new(
                entry.format,
                slice_subrange(wave_data, entry.data_offset, entry.data_offset + entry.data_length),
                entry.data_length,
            );
            proof {
                sounds.lemma_lengths();
                lemma_views_with(sounds.listing(), name@, sound);
            }
            sounds = sounds.insert(name, sound);
            i = i + 1;
        }
        Ok(sounds)
    }
}

impl Header {
    /// Gets the five segments from the file.
    pub fn segments<'a>(&self, data: &'a [u8]) -> (segments: Result<Vec<&'a [u8]>, MiniParserError>)
        requires
            self.segment_positions@.len() == 5,
        ensures
            segments is Err <==> exists|i: int|
                0 <= i < 5 && (#[trigger] self.segment_positions@[i]).bytes(data@) is Err,
            segments is Err ==> segments->Err_0 == MiniParserError::IOError(IOErrorKind::UnexpectedEof),
            segments is Ok ==> segments->Ok_0@.len() == 5 && forall|i: int|
                0 <= i < 5 ==> (#[trigger] self.segment_positions@[i]).bytes(data@) == Ok::<Seq<u8>, MiniParserError>(
                    segments->Ok_0@[i]@,
                ),
    {
        let mut segments: Vec<&'a [u8]> = Vec::new();
        let mut i: usize = 0;
        while i < 5
            invariant
                i <= 5,
                self.segment_positions@.len() == 5,
                segments@.len() == i,
                forall|k: int|
                    0 <= k < i ==> (#[trigger] self.segment_positions@[k]).bytes(data@) == Ok::<
                        Seq<u8>,
                        MiniParserError,
                    >(segments@[k]@),
            decreases 5 - i,
        {
            let segment = match self.segment_positions[i].get_from(data) {
                Ok(segment) => segment,
                Err(error) => {
                    assert(self.segment_positions@[i as int].bytes(data@) is Err);
                    return Err(error);
                },
            };
            segments.push(segment);
            i = i + 1;
        }
        Ok(segments)
    }
}

/// Once the data of a sound is missing, the bank cannot be read: the error of
/// the first `n` entries is that of any longer run of entries.
pub proof fn lemma_sounds_fail(entries: Seq<u8>, names: Seq<Seq<char>>, wave_data: Seq<u8>, n: int, m: int)
    requires
        n <= m,
    ensures
        WaveBank::sounds(entries, names, wave_data, n) is Err ==> WaveBank::sounds(entries, names, wave_data, m)
            == WaveBank::sounds(entries, names, wave_data, n),
    decreases m - n,
{
    if n < m {
        lemma_sounds_fail(entries, names, wave_data, n, m - 1);
    }
}

proof fn lemma_views_with<'a>(sounds: Listing<Sound<'a>>, name: Seq<char>, sound: Sound<'a>)
    requires
        sounds.names.len() == sounds.values.len(),
    ensures
        sound_views(sounds.with(name, sound)) == sound_views(sounds).with(name, sound@),
{
    if sounds.names.contains(name) {
        let k = sounds.names.index_of(name);
        assert(sounds.names[k] == name);
        assert(sound_views(sounds.with(name, sound)).values =~= sound_views(sounds).with(name, sound@).values);
    } else {
        assert(sound_views(sounds.with(name, sound)).values =~= sound_views(sounds).with(name, sound@).values);
    }
}

/// Whether a string holds the characters of `text`.
fn same_string(string: &String, text: &str) -> (same: bool)
    ensures
        same == (string@ == text@),
{
    let other = String::from_str(text);
    *string == other
}

} // verus!

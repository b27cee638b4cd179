//! The archives of the game: a list of files, each stored as it is or
//! compressed.

use crate::mini_parser::{
    decode_utf8_lossy, get_slice_range, le_u32, utf8_lossy, Cursor, IOErrorKind, MiniParserError,
};
use crate::name_map::{Listing, NameMap};
use vstd::prelude::*;
use vstd::slice::slice_subrange;

verus! {

/// The number that an archive starts with.
pub const MAGIC: u32 = 0x19751120;

/// Why an archive or one of its files cannot be read.
#[derive(Clone, Copy, Debug, PartialEq, Eq, Structural)]
pub enum Error {
    /// The data does not start with [`MAGIC`].
    InvalidMagic { expected: u32, found: u32 },
    /// A file has another size than the archive says.
    DecompressionSize { expected: usize, found: usize },
    IOError(IOErrorKind),
    MiniParserError(MiniParserError),
}

/// The bytes of `bytes` before its first zero byte, all of them where it has
/// none.
pub open spec fn until_nul(bytes: Seq<u8>) -> Seq<u8>
    decreases bytes.len(),
{
    if bytes.len() == 0 || bytes[0] == 0 {
        Seq::empty()
    } else {
        seq![bytes[0]] + until_nul(bytes.skip(1))
    }
}

/// Where an archive holds a file and its path.
#[derive(Clone, Copy, Debug, Default, PartialEq, Eq, Structural)]
pub struct CueEntry {
    pub path_offset: usize,
    pub data_offset: usize,
    pub decompressed_size: usize,
    pub compressed_size: usize,
}

impl CueEntry {
    /// What [`CueEntry::parse`] returns: the four numbers that the first
    /// sixteen bytes of `data` hold.
    pub open spec fn parsed(data: Seq<u8>) -> Result<CueEntry, Error> {
        if data.len() < 16 {
            Err(Error::IOError(IOErrorKind::UnexpectedEof))
        } else {
            Ok(
                CueEntry {
                    path_offset: le_u32(data) as usize,
                    data_offset: le_u32(data.skip(4)) as usize,
                    decompressed_size: le_u32(data.skip(8)) as usize,
                    compressed_size: le_u32(data.skip(12)) as usize,
                },
            )
        }
    }

    /// The bytes of the path: those of the archive from the path offset up
    /// to the next zero byte.
    pub open spec fn path_bytes(self, data: Seq<u8>) -> Result<Seq<u8>, Error> {
        if self.path_offset > data.len() {
            Err(Error::MiniParserError(MiniParserError::IOError(IOErrorKind::UnexpectedEof)))
        } else {
            Ok(until_nul(data.skip(self.path_offset as int)))
        }
    }

    /// What [`CueEntry::parse_path`] returns: the text of the bytes of the
    /// path.
    pub open spec fn path(self, data: Seq<u8>) -> Result<Seq<char>, Error> {
        match self.path_bytes(data) {
            Ok(bytes) => Ok(utf8_lossy(bytes)),
            Err(error) => Err(error),
        }
    }

    /// Reads one entry of an archive's list of files.
    pub fn parse(data: &[u8]) -> (entry: Result<Self, Error>)
        ensures
            entry == CueEntry::parsed(data@),
    {
        let mut cursor = Cursor::new(data);
        let path_offset = match cursor.read_u32_le() {
            Ok(path_offset) => path_offset as usize,
            Err(kind) => {
                return Err(Error::IOError(kind));
            },
        };
        let data_offset = match cursor.read_u32_le() {
            Ok(data_offset) => data_offset as usize,
            Err(kind) => {
                return Err(Error::IOError(kind));
            },
        };
        let decompressed_size = match cursor.read_u32_le() {
            Ok(decompressed_size) => decompressed_size as usize,
            Err(kind) => {
                return Err(Error::IOError(kind));
            },
        };
        let compressed_size = match cursor.read_u32_le() {
            Ok(compressed_size) => compressed_size as usize,
            Err(kind) => {
                return Err(Error::IOError(kind));
            },
        };
        proof {
            assert(data@.skip(4).skip(4) =~= data@.skip(8));
            assert(data@.skip(8).skip(4) =~= data@.skip(12));
        }
        Ok(CueEntry { path_offset, data_offset, decompressed_size, compressed_size })
    }

    /// Reads the path of the file from the bytes of the archive.
    pub fn parse_path(&self, data: &[u8]) -> (path: Result<String, Error>)
        ensures
            match self.path(data@) {
                Ok(text) => path is Ok && path->Ok_0@ == text,
                Err(error) => path is Err && path->Err_0 == error,
            },
            match self.path_bytes(data@) {
                Ok(bytes) => vstd::utf8::valid_utf8(bytes) ==> path is Ok && path->Ok_0@ == vstd::utf8::decode_utf8(
                    bytes,
                ),
                Err(_) => true,
            },
    {
        match self.find_path(data) {
            Ok(bytes) => Ok(decode_utf8_lossy(bytes)),
            Err(error) => Err(error),
        }
    }

    /// Finds the bytes of the path of the file in the bytes of the archive.
    pub fn find_path<'a>(&self, data: &'a [u8]) -> (path: Result<&'a [u8], Error>)
        ensures
            match self.path_bytes(data@) {
                Ok(bytes) => path is Ok && path->Ok_0@ == bytes,
                Err(error) => path is Err && path->Err_0 == error,
            },
    {
        let rest = match get_slice_range(data, self.path_offset..data.len()) {
            Ok(rest) => rest,
            Err(error) => {
                return Err(Error::MiniParserError(error));
            },
        };
        let mut end: usize = 0;
        assert(rest@.skip(0) =~= rest@);
        assert(rest@.take(0) + until_nul(rest@) =~= until_nul(rest@));
        while end < rest.len() && rest[end] != 0
            invariant
                end <= rest@.len(),
                until_nul(rest@) == rest@.take(end as int) + until_nul(rest@.skip(end as int)),
            decreases rest@.len() - end,
        {
            proof {
                let tail = rest@.skip(end as int);
                assert(tail.skip(1) =~= rest@.skip(end as int + 1));
                assert(rest@.take(end as int) + (seq![tail[0]] + until_nul(tail.skip(1))) =~= rest@.take(end as int + 1)
                    + until_nul(tail.skip(1)));
            }
            end = end + 1;
        }
        proof {
            assert(until_nul(rest@.skip(end as int)) =~= Seq::<u8>::empty());
            assert(rest@.take(end as int) + Seq::<u8>::empty() =~= rest@.take(end as int));
        }
        Ok(slice_subrange(rest, 0, end))
    }
}

/// The files of an archive by their paths.
#[derive(Debug, PartialEq)]
pub struct Cue(pub NameMap<CueEntry>);

impl Cue {
    /// The part of the list `data` for the entry with the index `i`: sixteen
    /// bytes, or what is left of the list.
    pub open spec fn chunk(data: Seq<u8>, i: int) -> Seq<u8> {
        data.subrange(
            16 * i,
            if 16 * i + 16 <= data.len() {
                16 * i + 16
            } else {
                data.len() as int
            },
        )
    }

    /// The files that the first `n` entries of the list `data` name, with
    /// their paths from the bytes `arc_data` of the archive, or the error of
    /// the first entry that has one. Of two entries with one path the later
    /// one counts.
    pub open spec fn listed(data: Seq<u8>, arc_data: Seq<u8>, n: int) -> Result<Listing<CueEntry>, Error>
        decreases n,
    {
        if n <= 0 {
            Ok(Listing::empty())
        } else {
            match (Cue::listed(data, arc_data, n - 1), CueEntry::parsed(Cue::chunk(data, n - 1))) {
                (Err(error), _) => Err(error),
                (_, Err(error)) => Err(error),
                (Ok(files), Ok(entry)) => match entry.path(arc_data) {
                    Ok(path) => Ok(files.with(path, entry)),
                    Err(error) => Err(error),
                },
            }
        }
    }

    /// What [`Cue::parse`] returns: the files that the entries of the list
    /// name.
    pub open spec fn parsed(data: Seq<u8>, arc_data: Seq<u8>) -> Result<Listing<CueEntry>, Error> {
        Cue::listed(data, arc_data, (data.len() + 15) as int / 16)
    }

    /// Reads the list of files `data` of the archive `arc_data`.
    pub fn parse(data: &[u8], arc_data: &[u8]) -> (cue: Result<Self, Error>)
        ensures
            match Cue::parsed(data@, arc_data@) {
                Ok(files) => cue is Ok && cue->Ok_0.0.listing() == files,
                Err(error) => cue is Err && cue->Err_0 == error,
            },
    {
        let mut cue: NameMap<CueEntry> = NameMap::new();
        let mut start: usize = 0;
        let ghost mut n: int = 0;
        while start < data.len()
            invariant
                start == 16 * n || start == data@.len(),
                16 * n <= start <= data@.len(),
                start == data@.len() ==> n == (data@.len() + 15) / 16,
                Cue::listed(data@, arc_data@, n) == Ok::<Listing<CueEntry>, Error>(cue.listing()),
            decreases data@.len() - start,
        {
            let end = if data.len() - start >= 16 {
                start + 16
            } else {
                data.len()
            };
            proof {
                lemma_listed_fails(data@, arc_data@, n + 1, (data@.len() + 15) as int / 16);
            }
            let entry = match CueEntry::parse(slice_subrange(data, start, end)) {
                Ok(entry) => entry,
                Err(error) => {
                    return Err(error);
                },
            };
            let path = match entry.parse_path(arc_data) {
                Ok(path) => path,
                Err(error) => {
                    return Err(error);
                },
            };
            cue = cue.insert(path, entry);
            start = end;
            proof {
                n = n + 1;
            }
        }
        Ok(Cue(cue))
    }
}

/// A file of an archive as the archive stores it.
#[derive(Clone, Copy, Debug)]
pub struct RawFile<'a> {
    /// The stored bytes.
    pub data: &'a [u8],
    /// The size of the file.
    pub decompressed_size: usize,
}

impl<'a> RawFile<'a> {
    /// Whether the file is stored compressed: its stored size is another
    /// than its own.
    pub fn is_compressed(&self) -> (compressed: bool)
        ensures
            compressed == (self.data@.len() != self.decompressed_size),
    {
        self.data.len() != self.decompressed_size
    }

    /// Hands on the bytes `data` of the file if they have the size that the
    /// archive gives for it.
    pub fn check(&self, data: Vec<u8>) -> (checked: Result<Vec<u8>, Error>)
        ensures
            data@.len() == self.decompressed_size ==> checked == Ok::<Vec<u8>, Error>(data),
            data@.len() != self.decompressed_size ==> checked == Err::<Vec<u8>, Error>(
                Error::DecompressionSize { expected: self.decompressed_size, found: data@.len() as usize },
            ),
    {
        if data.len() != self.decompressed_size {
            return Err(Error::DecompressionSize { expected: self.decompressed_size, found: data.len() });
        }
        Ok(data)
    }
}

/// An archive.
#[derive(Debug, PartialEq)]
pub struct ARC<'a> {
    data: &'a [u8],
    file_count: u32,
    version: u32,
    cue: Cue,
}

impl<'a> ARC<'a> {
    /// The bytes of the archive.
    pub closed spec fn bytes(self) -> Seq<u8> {
        self.data@
    }

    /// The files of the archive by their paths.
    pub closed spec fn files(self) -> Listing<CueEntry> {
        self.cue.0.listing()
    }

    /// The version that the archive gives for its format.
    pub closed spec fn format_version(self) -> u32 {
        self.version
    }

    /// The number of entries in the archive's list of files.
    pub closed spec fn entries(self) -> u32 {
        self.file_count
    }

    /// Whether the archive has a file with the path `path`.
    pub open spec fn has(self, path: Seq<char>) -> bool {
        self.files().names.contains(path)
    }

    /// The entry of the file with the path `path`.
    pub open spec fn entry(self, path: Seq<char>) -> CueEntry
        recommends
            self.has(path),
    {
        self.files().values[self.files().names.index_of(path)]
    }

    /// What [`ARC::parse`] finds in `data`: the files of the archive.
    ///
    /// An archive starts with four numbers: [`MAGIC`], a version, the number
    /// of files and a fourth that is not looked at. The list of files
    /// follows, sixteen bytes for each.
    pub open spec fn parsed(data: Seq<u8>) -> Result<Listing<CueEntry>, Error> {
        let file_count = le_u32(data.skip(8));
        if data.len() < 4 {
            Err(Error::IOError(IOErrorKind::UnexpectedEof))
        } else if le_u32(data) != MAGIC {
            Err(Error::InvalidMagic { expected: MAGIC, found: le_u32(data) as u32 })
        } else if data.len() < 16 + 16 * file_count {
            Err(Error::IOError(IOErrorKind::UnexpectedEof))
        } else {
            Cue::parsed(data.subrange(16, 16 + 16 * file_count), data)
        }
    }

    /// What [`ARC::get_raw_file`] returns for the path `path`: the stored
    /// bytes of the file and its size, or nothing where there is no such
    /// file.
    pub open spec fn stored(self, path: Seq<char>) -> Result<Option<(Seq<u8>, usize)>, Error> {
        let entry = self.entry(path);
        if !self.has(path) {
            Ok(None)
        } else if entry.data_offset + entry.compressed_size > self.bytes().len() {
            Err(Error::MiniParserError(MiniParserError::IOError(IOErrorKind::UnexpectedEof)))
        } else {
            Ok(
                Some(
                    (
                        self.bytes().subrange(entry.data_offset as int, entry.data_offset + entry.compressed_size),
                        entry.decompressed_size,
                    ),
                ),
            )
        }
    }

    /// Reads the head of an archive and its list of files.
    pub fn parse(data: &'a [u8]) -> (arc: Result<Self, Error>)
        ensures
            match ARC::parsed(data@) {
                Ok(files) => arc is Ok && arc->Ok_0.files() == files && arc->Ok_0.bytes() == data@
                    && arc->Ok_0.format_version() == le_u32(data@.skip(4)) && arc->Ok_0.entries() == le_u32(
                    data@.skip(8),
                ),
                Err(error) => arc is Err && arc->Err_0 == error,
            },
    {
        let mut cursor = Cursor::new(data);
        let magic = match cursor.read_u32_le() {
            Ok(magic) => magic,
            Err(kind) => {
                return Err(Error::IOError(kind));
            },
        };
        if magic != MAGIC {
            return Err(Error::InvalidMagic { expected: MAGIC, found: magic });
        }
        let version = match cursor.read_u32_le() {
            Ok(version) => version,
            Err(kind) => {
                return Err(Error::IOError(kind));
            },
        };
        let file_count = match cursor.read_u32_le() {
            Ok(file_count) => file_count,
            Err(kind) => {
                return Err(Error::IOError(kind));
            },
        };
        let _compression = match cursor.read_u32_le() {
            Ok(compression) => compression,
            Err(kind) => {
                return Err(Error::IOError(kind));
            },
        };
        proof {
            assert(data@.skip(4).skip(4) =~= data@.skip(8));
            assert(data@.skip(8).skip(4) =~= data@.skip(12));
            assert(data@.skip(12).skip(4) =~= data@.skip(16));
        }
        if file_count as u64 > (cursor.remaining_len() / 16) as u64 {
            return Err(Error::IOError(IOErrorKind::UnexpectedEof));
        }
        let cue_data = match cursor.read_exact(16 * (file_count as usize)) {
            Ok(cue_data) => cue_data,
            Err(kind) => {
                return Err(Error::IOError(kind));
            },
        };
        assert(cue_data@ =~= data@.subrange(16, 16 + 16 * file_count));
        let cue = match Cue::parse(cue_data, data) {
            Ok(cue) => cue,
            Err(error) => {
                return Err(error);
            },
        };
        Ok(ARC { data, file_count, version, cue })
    }

    /// The version that the archive gives for its format.
    pub fn version(&self) -> (version: u32)
        ensures
            version == self.format_version(),
    {
        self.version
    }

    /// The number of entries in the archive's list of files.
    pub fn file_count(&self) -> (file_count: u32)
        ensures
            file_count == self.entries(),
    {
        self.file_count
    }

    /// Whether the archive has a file with the path `path`.
    pub fn has_file(&self, path: &str) -> (found: bool)
        ensures
            found == self.has(path@),
    {
        self.cue.0.get(path).is_some()
    }

    /// The paths of the files, each once, in the order of the archive.
    pub fn file_paths(&self) -> (paths: Vec<&String>)
        ensures
            paths@.len() == self.files().names.len(),
            forall|i: int| 0 <= i < paths@.len() ==> (#[trigger] paths@[i])@ == self.files().names[i],
    {
        self.cue.0.keys()
    }

    /// Gets a single file from the archive as it is stored there, or
    /// nothing when the file does not exist.
    pub fn get_raw_file(&self, path: &str) -> (file: Result<Option<RawFile<'a>>, Error>)
        ensures
            match self.stored(path@) {
                Ok(Some((data, size))) => file is Ok && file->Ok_0 is Some && file->Ok_0->0.data@ == data
                    && file->Ok_0->0.decompressed_size == size,
                Ok(None) => file is Ok && file->Ok_0 is None,
                Err(error) => file is Err && file->Err_0 == error,
            },
    {
        let entry = match self.cue.0.get(path) {
            Some(entry) => entry,
            None => {
                return Ok(None);
            },
        };
        if entry.compressed_size > self.data.len() || entry.data_offset > self.data.len() - entry.compressed_size {
            return Err(Error::MiniParserError(MiniParserError::IOError(IOErrorKind::UnexpectedEof)));
        }
        let data = match get_slice_range(self.data, entry.data_offset..entry.data_offset + entry.compressed_size) {
            Ok(data) => data,
            Err(error) => {
                return Err(Error::MiniParserError(error));
            },
        };
        Ok(Some(RawFile { data, decompressed_size: entry.decompressed_size }))
    }
}

/// Once an entry cannot be read, the list cannot: the error of the first `n`
/// entries is that of any longer run of entries.
pub proof fn lemma_listed_fails(data: Seq<u8>, arc_data: Seq<u8>, n: int, m: int)
    requires
        n <= m,
    ensures
        Cue::listed(data, arc_data, n) is Err ==> Cue::listed(data, arc_data, m) == Cue::listed(data, arc_data, n),
    decreases m - n,
{
    if n < m {
        lemma_listed_fails(data, arc_data, n, m - 1);
    }
}

} // verus!

//! Reading little-endian numbers and short strings out of a byte buffer.

use byteorder::{ByteOrder, LittleEndian};
use std::ops::Range;
use vstd::prelude::*;
use vstd::slice::slice_subrange;

verus! {

/// Why a read from a byte buffer failed.
#[derive(Clone, Copy, Debug, PartialEq, Eq, Structural)]
pub enum IOErrorKind {
    /// The buffer ended before the requested bytes.
    UnexpectedEof,
    /// The bytes are not the UTF-8 encoding of a string.
    InvalidData,
}

/// Why a read of several values failed.
#[derive(Clone, Copy, Debug, PartialEq, Eq, Structural)]
pub enum MiniParserError {
    /// A length does not fit the machine's integers.
    TryFromIntError,
    IOError(IOErrorKind),
}

/// The number that two bytes encode, least significant byte first.
pub open spec fn le_u16(bytes: Seq<u8>) -> int
    recommends
        bytes.len() >= 2,
{
    bytes[0] + 0x100 * bytes[1]
}

/// The number that four bytes encode, least significant byte first.
pub open spec fn le_u32(bytes: Seq<u8>) -> int
    recommends
        bytes.len() >= 4,
{
    bytes[0] + 0x100 * bytes[1] + 0x1_0000 * bytes[2] + 0x100_0000 * bytes[3]
}

/// The signed number that four bytes encode in two's complement, least
/// significant byte first.
pub open spec fn le_i32(bytes: Seq<u8>) -> int
    recommends
        bytes.len() >= 4,
{
    if le_u32(bytes) < 0x8000_0000 {
        le_u32(bytes)
    } else {
        le_u32(bytes) - 0x1_0000_0000
    }
}

/// The signed number that the bytes `4 * i` to `4 * i + 3` encode.
pub open spec fn le_i32_at(bytes: Seq<u8>, i: int) -> i32
    recommends
        0 <= i,
        bytes.len() >= 4 * i + 4,
{
    le_i32(bytes.subrange(4 * i, 4 * i + 4)) as i32
}

/// The `n` signed numbers that the first `4 * n` bytes encode.
pub open spec fn le_i32_seq(bytes: Seq<u8>, n: nat) -> Seq<i32>
    recommends
        bytes.len() >= 4 * n,
{
    Seq::new(n, |i: int| le_i32_at(bytes, i))
}

/// What reading `n` numbers from `bytes` gives: the numbers, or why they
/// cannot be read.
pub open spec fn le_i32_table(bytes: Seq<u8>, n: int) -> Result<Seq<i32>, MiniParserError>
    recommends
        0 <= n,
{
    if 4 * n > usize::MAX {
        Err(MiniParserError::TryFromIntError)
    } else if 4 * n > bytes.len() {
        Err(MiniParserError::IOError(IOErrorKind::UnexpectedEof))
    } else {
        Ok(le_i32_seq(bytes, n as nat))
    }
}

/// `chars` without its NUL characters.
pub open spec fn without_nul(chars: Seq<char>) -> Seq<char> {
    chars.filter(|c: char| c != '\0')
}

/// `byteorder::LittleEndian::read_u16`: the first two bytes of `bytes` as a
/// little-endian number. It panics on fewer than two bytes.
#[verifier::external_body]
pub(crate) fn read_le_u16(bytes: &[u8]) -> (value: u16)
    requires
        bytes@.len() >= 2,
    ensures
        value == le_u16(bytes@),
{
    LittleEndian::read_u16(bytes)
}

/// `byteorder::LittleEndian::read_u32`: the first four bytes of `bytes` as a
/// little-endian number. It panics on fewer than four bytes.
#[verifier::external_body]
pub(crate) fn read_le_u32(bytes: &[u8]) -> (value: u32)
    requires
        bytes@.len() >= 4,
    ensures
        value == le_u32(bytes@),
{
    LittleEndian::read_u32(bytes)
}

/// `byteorder::LittleEndian::read_i32`: the first four bytes of `bytes` as a
/// little-endian number in two's complement. It panics on fewer than four
/// bytes.
#[verifier::external_body]
pub(crate) fn read_le_i32(bytes: &[u8]) -> (value: i32)
    requires
        bytes@.len() >= 4,
    ensures
        value == le_i32(bytes@),
{
    LittleEndian::read_i32(bytes)
}

/// `std::str::from_utf8`: the string that `bytes` encode, or nothing where
/// they are not valid UTF-8.
#[verifier::external_body]
pub(crate) fn decode_utf8_str(bytes: &[u8]) -> (text: Option<&str>)
    ensures
        text is Some <==> vstd::utf8::valid_utf8(bytes@),
        text is Some ==> text->0@ == vstd::utf8::decode_utf8(bytes@),
{
    std::str::from_utf8(bytes).ok()
}

/// The text that `String::from_utf8_lossy` makes of `bytes`: the text that
/// they encode where they are valid UTF-8, and else a text with replacement
/// characters for the parts that are not.
pub uninterp spec fn utf8_lossy(bytes: Seq<u8>) -> Seq<char>;

/// `String::from_utf8_lossy`: the text of `bytes`, which is the decoded text
/// where the bytes are valid UTF-8.
#[verifier::external_body]
pub(crate) fn decode_utf8_lossy(bytes: &[u8]) -> (text: String)
    ensures
        text@ == utf8_lossy(bytes@),
        vstd::utf8::valid_utf8(bytes@) ==> text@ == vstd::utf8::decode_utf8(bytes@),
{
    String::from_utf8_lossy(bytes).into_owned()
}

/// `str::replace`, with NUL as the pattern and the empty string in its
/// place: every NUL character is dropped, the others stay in order.
#[verifier::external_body]
pub(crate) fn strip_nul(text: &str) -> (stripped: String)
    ensures
        stripped@ == without_nul(text@),
{
    text.replace("\0", "")
}

/// A read position in a byte buffer.
pub struct Cursor<'a> {
    data: &'a [u8],
    position: usize,
}

impl<'a> Cursor<'a> {
    #[verifier::type_invariant]
    spec fn in_bounds(self) -> bool {
        self.position <= self.data@.len()
    }

    /// The bytes that have not been read yet.
    pub closed spec fn remaining(self) -> Seq<u8> {
        self.data@.subrange(self.position as int, self.data@.len() as int)
    }

    /// Creates a cursor at the start of `data`.
    pub fn new(data: &'a [u8]) -> (cursor: Self)
        ensures
            cursor.remaining() == data@,
    {
        assert(data@.subrange(0, data@.len() as int) == data@);
        Cursor { data, position: 0 }
    }

    /// How many bytes are left to read.
    pub fn remaining_len(&self) -> (len: usize)
        ensures
            len == self.remaining().len(),
    {
        proof {
            use_type_invariant(self);
        }
        self.data.len() - self.position
    }

    /// Takes the next `n` bytes, or fails and reads nothing where fewer are
    /// left.
    pub fn read_exact(&mut self, n: usize) -> (bytes: Result<&'a [u8], IOErrorKind>)
        ensures
            bytes is Ok <==> n <= old(self).remaining().len(),
            bytes is Ok ==> bytes->Ok_0@ == old(self).remaining().take(n as int)
                && final(self).remaining() == old(self).remaining().skip(n as int),
            bytes is Err ==> bytes->Err_0 == IOErrorKind::UnexpectedEof
                && final(self).remaining() == old(self).remaining(),
    {
        proof {
            use_type_invariant(&*self);
        }
        if n > self.data.len() - self.position {
            return Err(IOErrorKind::UnexpectedEof);
        }
        let start = self.position;
        let bytes = slice_subrange(self.data, start, start + n);
        self.position = start + n;
        assert(bytes@ == old(self).remaining().take(n as int));
        assert(self.remaining() == old(self).remaining().skip(n as int));
        Ok(bytes)
    }

    /// Takes all the bytes that are left.
    pub fn read_to_end(&mut self) -> (bytes: &'a [u8])
        ensures
            bytes@ == old(self).remaining(),
            final(self).remaining().len() == 0,
    {
        proof {
            use_type_invariant(&*self);
        }
        let bytes = slice_subrange(self.data, self.position, self.data.len());
        self.position = self.data.len();
        bytes
    }

    /// Reads a little-endian `u16`, or fails and reads nothing.
    pub fn read_u16_le(&mut self) -> (value: Result<u16, IOErrorKind>)
        ensures
            value is Ok <==> 2 <= old(self).remaining().len(),
            value is Ok ==> value->Ok_0 == le_u16(old(self).remaining())
                && final(self).remaining() == old(self).remaining().skip(2),
            value is Err ==> value->Err_0 == IOErrorKind::UnexpectedEof
                && final(self).remaining() == old(self).remaining(),
    {
        match self.read_exact(2) {
            Ok(bytes) => Ok(read_le_u16(bytes)),
            Err(kind) => Err(kind),
        }
    }

    /// Reads a little-endian `u32`, or fails and reads nothing.
    pub fn read_u32_le(&mut self) -> (value: Result<u32, IOErrorKind>)
        ensures
            value is Ok <==> 4 <= old(self).remaining().len(),
            value is Ok ==> value->Ok_0 == le_u32(old(self).remaining())
                && final(self).remaining() == old(self).remaining().skip(4),
            value is Err ==> value->Err_0 == IOErrorKind::UnexpectedEof
                && final(self).remaining() == old(self).remaining(),
    {
        match self.read_exact(4) {
            Ok(bytes) => Ok(read_le_u32(bytes)),
            Err(kind) => Err(kind),
        }
    }

    /// Reads a little-endian `i32`, or fails and reads nothing.
    pub fn read_i32_le(&mut self) -> (value: Result<i32, IOErrorKind>)
        ensures
            value is Ok <==> 4 <= old(self).remaining().len(),
            value is Ok ==> value->Ok_0 == le_i32(old(self).remaining())
                && final(self).remaining() == old(self).remaining().skip(4),
            value is Err ==> value->Err_0 == IOErrorKind::UnexpectedEof
                && final(self).remaining() == old(self).remaining(),
    {
        match self.read_exact(4) {
            Ok(bytes) => Ok(read_le_i32(bytes)),
            Err(kind) => Err(kind),
        }
    }
}

/// Convenience reads for binary formats.
pub trait MiniParser {
    /// The bytes that have not been read yet.
    spec fn unread(&self) -> Seq<u8>;

    /// Reads a string of at most `length` bytes, fewer where the input ends
    /// before, and strips its NUL characters. The bytes are consumed even
    /// where they turn out not to be UTF-8.
    fn read_string(&mut self, length: usize) -> (text: Result<String, MiniParserError>)
        ensures
            ({
                let available = old(self).unread();
                let taken = if length <= available.len() {
                    available.take(length as int)
                } else {
                    available
                };
                &&& final(self).unread() == available.skip(taken.len() as int)
                &&& text is Ok <==> vstd::utf8::valid_utf8(taken)
                &&& text is Ok ==> text->Ok_0@ == without_nul(vstd::utf8::decode_utf8(taken))
                &&& text is Err ==> text->Err_0 == MiniParserError::IOError(IOErrorKind::InvalidData)
            }),
    ;

    /// Reads `n` little-endian `i32`, or fails and reads nothing.
    fn read_n_i32(&mut self, n: usize) -> (values: Result<Vec<i32>, MiniParserError>)
        ensures
            match le_i32_table(old(self).unread(), n as int) {
                Ok(numbers) => values is Ok && values->Ok_0@ == numbers
                    && final(self).unread() == old(self).unread().skip(4 * n),
                Err(error) => values == Err::<Vec<i32>, MiniParserError>(error)
                    && final(self).unread() == old(self).unread(),
            },
    ;
}

impl<'a> MiniParser for Cursor<'a> {
    open spec fn unread(&self) -> Seq<u8> {
        self.remaining()
    }

    fn read_string(&mut self, length: usize) -> (text: Result<String, MiniParserError>) {
        let available = self.remaining_len();
        let taken = if length <= available {
            length
        } else {
            available
        };
        let bytes = match self.read_exact(taken) {
            Ok(bytes) => bytes,
            Err(kind) => {
                return Err(MiniParserError::IOError(kind));
            },
        };
        assert(old(self).remaining().take(available as int) == old(self).remaining());
        match decode_utf8_str(bytes) {
            Some(text) => Ok(strip_nul(text)),
            None => Err(MiniParserError::IOError(IOErrorKind::InvalidData)),
        }
    }

    fn read_n_i32(&mut self, n: usize) -> (values: Result<Vec<i32>, MiniParserError>) {
        if n > usize::MAX / 4 {
            return Err(MiniParserError::TryFromIntError);
        }
        let block = match self.read_exact(4 * n) {
            Ok(block) => block,
            Err(kind) => {
                return Err(MiniParserError::IOError(kind));
            },
        };
        let mut values: Vec<i32> = Vec::new();
        let mut i: usize = 0;
        while i < n
            invariant
                i <= n,
                n <= usize::MAX / 4,
                block@.len() == 4 * n,
                values@ == le_i32_seq(block@, i as nat),
            decreases n - i,
        {
            let value = read_le_i32(slice_subrange(block, 4 * i, 4 * i + 4));
            values.push(value);
            i = i + 1;
            assert(values@ =~= le_i32_seq(block@, i as nat));
        }
        proof {
            let unread = old(self).remaining();
            assert forall|k: int| 0 <= k < n implies #[trigger] le_i32_at(block@, k) == le_i32_at(unread, k) by {
                assert(block@.subrange(4 * k, 4 * k + 4) =~= unread.subrange(4 * k, 4 * k + 4));
            }
            assert(values@ =~= le_i32_seq(unread, n as nat));
        }
        Ok(values)
    }
}

/// Gets the requested `range` from `slice`, and fails with `UnexpectedEof`
/// when the range does not fit in the slice.
pub fn get_slice_range(slice: &[u8], range: Range<usize>) -> (part: Result<&[u8], MiniParserError>)
    ensures
        part is Ok <==> range.start <= range.end <= slice@.len(),
        part is Ok ==> part->Ok_0@ == slice@.subrange(range.start as int, range.end as int),
        part is Err ==> part->Err_0 == MiniParserError::IOError(IOErrorKind::UnexpectedEof),
{
    if range.start <= range.end && range.end <= slice.len() {
        Ok(slice_subrange(slice, range.start, range.end))
    } else {
        Err(MiniParserError::IOError(IOErrorKind::UnexpectedEof))
    }
}

} // verus!

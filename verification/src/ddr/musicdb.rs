//! The song database of the game, which holds the title, the artist and the
//! levels of each song.

use vstd::prelude::*;
use vstd::slice::slice_subrange;
use vstd::string::StringSliceAdditionalSpecFns;

verus! {

/// Why a text is not a number from 0 to 255.
#[derive(Clone, Copy, Debug, PartialEq, Eq, Structural)]
pub enum NumberError {
    /// The text is not a run of digits, with or without a plus sign in
    /// front.
    InvalidDigit,
    /// The number is greater than 255.
    PosOverflow,
}

/// The number that a run of digits stands for in base ten.
pub open spec fn digits_value(digits: Seq<u8>) -> int
    decreases digits.len(),
{
    if digits.len() == 0 {
        0
    } else {
        10 * digits_value(digits.drop_last()) + (digits.last() - 0x30)
    }
}

/// Whether all of `digits` are digits.
pub open spec fn all_digits(digits: Seq<u8>) -> bool {
    forall|i: int| 0 <= i < digits.len() ==> 0x30 <= #[trigger] digits[i] <= 0x39
}

/// The digits of a number: the text without the plus sign in front, if it has
/// one.
pub open spec fn unsigned_part(text: Seq<u8>) -> Seq<u8> {
    if text.len() > 0 && text[0] == 0x2b {
        text.skip(1)
    } else {
        text
    }
}

/// The number from 0 to 255 that `text` stands for.
pub open spec fn number(text: Seq<u8>) -> Result<u8, NumberError> {
    let digits = unsigned_part(text);
    if digits.len() == 0 || !all_digits(digits) {
        Err(NumberError::InvalidDigit)
    } else if digits_value(digits) > 255 {
        Err(NumberError::PosOverflow)
    } else {
        Ok(digits_value(digits) as u8)
    }
}

/// The part of `text` before its first space, all of it where it has none.
pub open spec fn first_item(text: Seq<u8>) -> Seq<u8>
    decreases text.len(),
{
    if text.len() == 0 || text[0] == 0x20 {
        Seq::empty()
    } else {
        seq![text[0]] + first_item(text.skip(1))
    }
}

/// The numbers of a list in which one space stands between each two items, or
/// the error of the first item that is no number. A list has at least one
/// item.
pub open spec fn numbers(text: Seq<u8>) -> Result<Seq<u8>, NumberError>
    decreases text.len(),
{
    let item = first_item(text);
    match number(item) {
        Ok(value) => if item.len() >= text.len() {
            Ok(seq![value])
        } else {
            match numbers(text.skip(item.len() as int + 1)) {
                Ok(rest) => Ok(seq![value] + rest),
                Err(error) => Err(error),
            }
        },
        Err(error) => Err(error),
    }
}

/// The items of a list that is written with spaces between them.
#[derive(Clone, Debug, PartialEq)]
pub struct XMLList<T>(pub Vec<T>);

impl XMLList<u8> {
    /// Reads a list of numbers from 0 to 255.
    pub fn parse(text: &str) -> (list: Result<Self, NumberError>)
        ensures
            match numbers(text.spec_bytes()) {
                Ok(values) => list is Ok && list->Ok_0.0@ == values,
                Err(error) => list is Err && list->Err_0 == error,
            },
    {
        let bytes = text.as_bytes();
        let mut values: Vec<u8> = Vec::new();
        let mut start: usize = 0;
        assert(bytes@.skip(0) =~= bytes@);
        assert(Seq::<u8>::empty() + numbers(bytes@)->Ok_0 =~= numbers(bytes@)->Ok_0);
        loop
            invariant
                start <= bytes@.len(),
                bytes@ == text.spec_bytes(),
                numbers(bytes@) == match numbers(bytes@.skip(start as int)) {
                    Ok(rest) => Ok::<Seq<u8>, NumberError>(values@ + rest),
                    Err(error) => Err::<Seq<u8>, NumberError>(error),
                },
            decreases bytes@.len() - start,
        {
            let ghost rest = bytes@.skip(start as int);
            let end = item_end(bytes, start);
            let value = match parse_number(slice_subrange(bytes, start, end)) {
                Ok(value) => value,
                Err(error) => {
                    return Err(error);
                },
            };
            let ghost before = values@;
            values.push(value);
            if end >= bytes.len() {
                assert(before + seq![value] =~= values@);
                return Ok(XMLList(values));
            }
            proof {
                let tail = numbers(rest.skip(end - start + 1));
                assert(rest.skip(end - start + 1) =~= bytes@.skip(end as int + 1));
                if tail is Ok {
                    assert(before + (seq![value] + tail->Ok_0) =~= values@ + tail->Ok_0);
                }
            }
            start = end + 1;
        }
    }
}

/// Finds the end of the item that starts at `start`.
fn item_end(bytes: &[u8], start: usize) -> (end: usize)
    requires
        start <= bytes@.len(),
    ensures
        start <= end <= bytes@.len(),
        bytes@.subrange(start as int, end as int) == first_item(bytes@.skip(start as int)),
{
    let mut end = start;
    assert(bytes@.subrange(start as int, start as int) + first_item(bytes@.skip(start as int)) =~= first_item(
        bytes@.skip(start as int),
    ));
    while end < bytes.len() && bytes[end] != 0x20
        invariant
            start <= end <= bytes@.len(),
            first_item(bytes@.skip(start as int)) == bytes@.subrange(start as int, end as int) + first_item(
                bytes@.skip(end as int),
            ),
        decreases bytes@.len() - end,
    {
        proof {
            let tail = bytes@.skip(end as int);
            assert(tail.skip(1) =~= bytes@.skip(end as int + 1));
            assert(bytes@.subrange(start as int, end as int) + (seq![tail[0]] + first_item(tail.skip(1)))
                =~= bytes@.subrange(start as int, end as int + 1) + first_item(tail.skip(1)));
        }
        end = end + 1;
    }
    proof {
        assert(first_item(bytes@.skip(end as int)) =~= Seq::<u8>::empty());
        assert(bytes@.subrange(start as int, end as int) + Seq::<u8>::empty() =~= bytes@.subrange(
            start as int,
            end as int,
        ));
    }
    end
}

/// Reads a number from 0 to 255.
fn parse_number(text: &[u8]) -> (value: Result<u8, NumberError>)
    ensures
        value == number(text@),
{
    let digits = if text.len() > 0 && text[0] == 0x2b {
        slice_subrange(text, 1, text.len())
    } else {
        text
    };
    assert(digits@ =~= unsigned_part(text@));
    if digits.len() == 0 {
        return Err(NumberError::InvalidDigit);
    }
    let mut value: u32 = 0;
    let mut i: usize = 0;
    while i < digits.len()
        invariant
            i <= digits@.len(),
            0 < digits@.len(),
            digits@ == unsigned_part(text@),
            all_digits(digits@.take(i as int)),
            value <= 256,
            value == (if digits_value(digits@.take(i as int)) > 255 {
                256
            } else {
                digits_value(digits@.take(i as int))
            }),
        decreases digits@.len() - i,
    {
        let digit = digits[i];
        if digit < 0x30 || digit > 0x39 {
            assert(!all_digits(digits@));
            return Err(NumberError::InvalidDigit);
        }
        proof {
            assert(digits@.take(i as int + 1).drop_last() =~= digits@.take(i as int));
            lemma_digits_value(digits@.take(i as int));
        }
        value = value * 10 + (digit - 0x30) as u32;
        if value > 255 {
            value = 256;
        }
        i = i + 1;
    }
    assert(digits@.take(i as int) =~= digits@);
    if value > 255 {
        Err(NumberError::PosOverflow)
    } else {
        Ok(value as u8)
    }
}

/// The value of a run of digits is not negative.
proof fn lemma_digits_value(digits: Seq<u8>)
    requires
        all_digits(digits),
    ensures
        0 <= digits_value(digits),
    decreases digits.len(),
{
    if digits.len() > 0 {
        assert(all_digits(digits.drop_last())) by {
            assert forall|i: int| 0 <= i < digits.drop_last().len() implies 0x30 <= #[trigger] digits.drop_last()[i]
                <= 0x39 by {
                assert(digits.drop_last()[i] == digits[i]);
            }
        }
        lemma_digits_value(digits.drop_last());
    }
}

/// A song. Only the fields that every song has are kept.
#[derive(Clone, Debug)]
pub struct Entry {
    pub mcode: u32,
    pub basename: String,
    pub title: String,
    pub artist: String,
    pub bpmmax: u16,
    pub series: u8,
    /// The levels of the song: five for one player and five for two, from
    /// the easiest difficulty to the hardest.
    pub diff_lv: XMLList<u8>,
}

/// The songs of the game.
#[derive(Clone, Debug)]
pub struct MusicDB {
    pub music: Vec<Entry>,
}

impl MusicDB {
    /// The index of the first song with the base name `basename`, from the
    /// song with the index `from` on.
    pub open spec fn first_with(self, basename: Seq<char>, from: int) -> Option<int>
        decreases self.music@.len() - from,
    {
        if from >= self.music@.len() {
            None
        } else if self.music@[from].basename@ == basename {
            Some(from)
        } else {
            self.first_with(basename, from + 1)
        }
    }

    /// Finds the first song with the base name `basename`.
    pub fn get_entry_from_basename(&self, basename: &str) -> (entry: Option<&Entry>)
        ensures
            match self.first_with(basename@, 0) {
                Some(i) => entry is Some && 0 <= i < self.music@.len() && *entry->0 == self.music@[i],
                None => entry is None,
            },
    {
        let wanted = basename.to_owned();
        let mut i: usize = 0;
        while i < self.music.len()
            invariant
                i <= self.music@.len(),
                wanted@ == basename@,
                self.first_with(basename@, 0) == self.first_with(basename@, i as int),
            decreases self.music@.len() - i,
        {
            if self.music[i].basename == wanted {
                return Some(&self.music[i]);
            }
            i = i + 1;
        }
        None
    }
}

} // verus!

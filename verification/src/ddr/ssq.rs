//! Step charts: a file of chunks that holds one tempo map and one chart for
//! each difficulty.
//!
//! Positions in a song are counted in beats. A chart stores them in a fixed
//! point format of 4096 units to the measure, a measure being four beats, so
//! that one beat is 1024 units. All beat positions here are kept in these
//! units, as [`Beats`].

use crate::mini_parser::{
    le_i32, le_i32_table, le_u16, le_u32, Cursor, IOErrorKind, MiniParser, MiniParserError,
};
use crate::utils::{bit_is_set, get_nth_bit, push_char, weighed};
use vstd::prelude::*;
use vstd::string::StringExecFns;

verus! {

/// A position or a length in a song, in units of 1/1024 beat.
pub type Beats = u64;

/// The number of [`Beats`] units in one beat.
pub const UNITS_PER_BEAT: u64 = 1024;

/// Why a step chart file or one of its chunks cannot be read.
#[derive(Clone, Copy, Debug, PartialEq, Eq, Structural)]
pub enum Error {
    /// A step asks for freeze data after the last freeze record.
    NotEnoughFreezeData,
    /// The player count is neither 1 nor 2.
    InvalidPlayerCount(u8),
    /// The difficulty is none of 4, 1, 2, 3, 6.
    InvalidDifficulty(u8),
    /// A tempo chunk with more than one entry gives zero ticks per second.
    InvalidTickRate,
    IOError(IOErrorKind),
    /// A number in the file is out of the range of the value it stands for.
    TryFromIntError,
    MiniParserError(MiniParserError),
}

/// The four arrows of one player.
#[derive(Clone, Copy, Debug, PartialEq, Eq, Structural, Default)]
pub struct PlayerRow {
    pub left: bool,
    pub down: bool,
    pub up: bool,
    pub right: bool,
}

impl PlayerRow {
    /// The row that the low four bits of `byte` encode: bit 0 is left, bit 1
    /// down, bit 2 up and bit 3 right.
    pub open spec fn of_byte(byte: u8) -> PlayerRow {
        PlayerRow {
            left: bit_is_set(byte, 0),
            down: bit_is_set(byte, 1),
            up: bit_is_set(byte, 2),
            right: bit_is_set(byte, 3),
        }
    }

    /// The arrows from left to right.
    pub open spec fn columns(self) -> Seq<bool> {
        seq![self.left, self.down, self.up, self.right]
    }

    /// How many arrows are active.
    pub open spec fn active(self) -> int {
        weighed(self.left, 1) + weighed(self.down, 1) + weighed(self.up, 1) + weighed(self.right, 1)
    }

    /// Whether some arrow is active in both rows.
    pub open spec fn overlaps(self, other: PlayerRow) -> bool {
        (self.left && other.left) || (self.down && other.down) || (self.up && other.up) || (self.right
            && other.right)
    }

    /// One character for each arrow, a space where it is not active.
    pub open spec fn text(self) -> Seq<char> {
        seq![
            if self.left { '\u{2190}' } else { ' ' },
            if self.down { '\u{2193}' } else { ' ' },
            if self.up { '\u{2191}' } else { ' ' },
            if self.right { '\u{2192}' } else { ' ' },
        ]
    }

    /// The arrows from left to right.
    pub fn to_vec(self) -> (columns: Vec<bool>)
        ensures
            columns@ == self.columns(),
    {
        vec![self.left, self.down, self.up, self.right]
    }

    /// Writes the value as text.
    pub fn to_string(&self) -> (text: String)
        ensures
            text@ == self.text(),
    {
        let mut text = String::new();
        push_char(&mut text, if self.left { '\u{2190}' } else { ' ' });
        push_char(&mut text, if self.down { '\u{2193}' } else { ' ' });
        push_char(&mut text, if self.up { '\u{2191}' } else { ' ' });
        push_char(&mut text, if self.right { '\u{2192}' } else { ' ' });
        assert(text@ =~= self.text());
        text
    }
}

impl From<u8> for PlayerRow {
    fn from(byte: u8) -> (row: Self) {
        PlayerRow {
            left: get_nth_bit(byte, 0),
            down: get_nth_bit(byte, 1),
            up: get_nth_bit(byte, 2),
            right: get_nth_bit(byte, 3),
        }
    }
}

impl vstd::std_specs::convert::FromSpecImpl<u8> for PlayerRow {
    open spec fn obeys_from_spec() -> bool {
        true
    }

    open spec fn from_spec(byte: u8) -> Self {
        PlayerRow::of_byte(byte)
    }
}

impl From<PlayerRow> for Vec<bool> {
    fn from(row: PlayerRow) -> (columns: Self)
        ensures
            columns@ == row.columns(),
    {
        row.to_vec()
    }
}

impl vstd::std_specs::convert::FromSpecImpl<PlayerRow> for Vec<bool> {
    open spec fn obeys_from_spec() -> bool {
        false
    }

    open spec fn from_spec(row: PlayerRow) -> Self {
        arbitrary()
    }
}

/// The arrows of one step, for one player or for two.
#[derive(Clone, Copy, Debug, PartialEq, Eq, Structural)]
pub enum Row {
    Single(PlayerRow),
    Double(PlayerRow, PlayerRow),
}

impl Row {
    /// What [`Row::new`] returns: the low four bits of `byte` are the first
    /// player's arrows and, with two players, the high four bits the second
    /// player's.
    pub open spec fn decoded(byte: u8, players: u8) -> Result<Row, Error> {
        if players == 1 {
            Ok(Row::Single(PlayerRow::of_byte(byte)))
        } else if players == 2 {
            Ok(Row::Double(PlayerRow::of_byte(byte), PlayerRow::of_byte(byte >> 4u8)))
        } else {
            Err(Error::InvalidPlayerCount(players))
        }
    }

    /// For how many players the row is.
    pub open spec fn players(self) -> int {
        match self {
            Row::Single(_) => 1,
            Row::Double(_, _) => 2,
        }
    }

    /// The arrows from left to right, the first player's before the second
    /// player's.
    pub open spec fn columns(self) -> Seq<bool> {
        match self {
            Row::Single(row) => row.columns(),
            Row::Double(row1, row2) => row1.columns() + row2.columns(),
        }
    }

    /// How many arrows are active.
    pub open spec fn active(self) -> int {
        match self {
            Row::Single(row) => row.active(),
            Row::Double(row1, row2) => row1.active() + row2.active(),
        }
    }

    /// Whether both rows are for the same number of players and some arrow is
    /// active in both.
    pub open spec fn overlaps(self, other: Row) -> bool {
        match (self, other) {
            (Row::Single(a), Row::Single(b)) => a.overlaps(b),
            (Row::Double(a1, a2), Row::Double(b1, b2)) => a1.overlaps(b1) || a2.overlaps(b2),
            _ => false,
        }
    }

    /// The players' rows as text, with a space between them.
    pub open spec fn text(self) -> Seq<char> {
        match self {
            Row::Single(row) => row.text(),
            Row::Double(row1, row2) => row1.text() + seq![' '] + row2.text(),
        }
    }

    /// Decodes the arrows of a step for `players` players from a byte.
    pub fn new(byte: u8, players: u8) -> (row: Result<Self, Error>)
        ensures
            row == Row::decoded(byte, players),
    {
        match players {
            1 => Ok(Row::Single(PlayerRow::from(byte))),
            2 => Ok(Row::Double(PlayerRow::from(byte), PlayerRow::from(byte >> 4))),
            _ => Err(Error::InvalidPlayerCount(players)),
        }
    }

    /// The arrows from left to right.
    pub fn to_vec(self) -> (columns: Vec<bool>)
        ensures
            columns@ == self.columns(),
    {
        match self {
            Row::Single(row) => row.to_vec(),
            Row::Double(row1, row2) => {
                let mut columns = row1.to_vec();
                let mut second = row2.to_vec();
                columns.append(&mut second);
                columns
            },
        }
    }

    /// Counts the active arrows.
    pub fn count_active(&self) -> (count: u8)
        ensures
            count == self.active(),
    {
        let columns = self.to_vec();
        let mut count: u8 = 0;
        let mut i: usize = 0;
        while i < columns.len()
            invariant
                i <= columns@.len(),
                columns@.len() <= 8,
                count == active_among(columns@, i as int),
                count <= i,
            decreases columns@.len() - i,
        {
            if columns[i] {
                count = count + 1;
            }
            i = i + 1;
        }
        proof {
            lemma_active_among(*self);
        }
        count
    }

    /// Whether both rows are for the same number of players and some arrow
    /// is active in both.
    pub fn intersects(self, other: Self) -> (overlap: bool)
        ensures
            overlap == self.overlaps(other),
    {
        if self.players_count() != other.players_count() {
            return false;
        }
        let own = self.to_vec();
        let others = other.to_vec();
        let mut i: usize = 0;
        while i < own.len()
            invariant
                i <= own@.len(),
                own@ == self.columns(),
                others@ == other.columns(),
                own@.len() == others@.len(),
                forall|k: int| 0 <= k < i ==> !(own@[k] && others@[k]),
            decreases own@.len() - i,
        {
            if own[i] && others[i] {
                proof {
                    lemma_overlaps_columns(self, other);
                    assert(self.columns()[i as int] && other.columns()[i as int]);
                }
                return true;
            }
            i = i + 1;
        }
        proof {
            lemma_overlaps_columns(self, other);
        }
        false
    }

    /// Writes the value as text.
    pub fn to_string(&self) -> (text: String)
        ensures
            text@ == self.text(),
    {
        match self {
            Row::Single(row) => row.to_string(),
            Row::Double(row1, row2) => {
                let mut text = row1.to_string();
                push_char(&mut text, ' ');
                let second = row2.to_string();
                text.append(second.as_str());
                text
            },
        }
    }

    /// For how many players the row is.
    pub fn players_count(&self) -> (players: u8)
        ensures
            players == self.players(),
    {
        match self {
            Row::Single(_) => 1,
            Row::Double(_, _) => 2,
        }
    }
}

impl From<Row> for Vec<bool> {
    fn from(row: Row) -> (columns: Self)
        ensures
            columns@ == row.columns(),
    {
        row.to_vec()
    }
}

impl vstd::std_specs::convert::FromSpecImpl<Row> for Vec<bool> {
    open spec fn obeys_from_spec() -> bool {
        false
    }

    open spec fn from_spec(row: Row) -> Self {
        arbitrary()
    }
}

/// How many of the first `n` columns are active.
pub open spec fn active_among(columns: Seq<bool>, n: int) -> int
    decreases n,
{
    if n <= 0 {
        0
    } else {
        active_among(columns, n - 1) + if columns[n - 1] { 1int } else { 0 }
    }
}

/// The number of active arrows of a row is the number of its active columns.
pub proof fn lemma_active_among(row: Row)
    ensures
        active_among(row.columns(), row.columns().len() as int) == row.active(),
{
    reveal_with_fuel(active_among, 9);
}

/// The index of an arrow that is active in both rows, if there is one.
spec fn common_arrow(a: PlayerRow, b: PlayerRow) -> int {
    if a.left && b.left {
        0
    } else if a.down && b.down {
        1
    } else if a.up && b.up {
        2
    } else {
        3
    }
}

/// Two rows overlap exactly when they have as many columns and some column is
/// active in both.
pub proof fn lemma_overlaps_columns(a: Row, b: Row)
    ensures
        a.overlaps(b) <==> a.columns().len() == b.columns().len() && exists|i: int|
            0 <= i < a.columns().len() && a.columns()[i] && b.columns()[i],
{
    let (ca, cb) = (a.columns(), b.columns());
    if a.overlaps(b) {
        match (a, b) {
            (Row::Single(x), Row::Single(y)) => {
                let i = common_arrow(x, y);
                assert(ca[i] && cb[i]);
            },
            (Row::Double(x1, x2), Row::Double(y1, y2)) => {
                let i = if x1.overlaps(y1) {
                    common_arrow(x1, y1)
                } else {
                    4 + common_arrow(x2, y2)
                };
                assert(ca[i] && cb[i]);
            },
            _ => {},
        }
    }
}

/// Decoding a byte and flattening the row gives back the byte's bits: column
/// `i` is active exactly when bit `i` is set.
pub proof fn lemma_row_round_trip(byte: u8, players: u8, i: u8)
    requires
        players == 1 || players == 2,
        i < 4 * players,
    ensures
        Row::decoded(byte, players) is Ok,
        Row::decoded(byte, players)->Ok_0.columns().len() == 4 * players,
        Row::decoded(byte, players)->Ok_0.columns()[i as int] == bit_is_set(byte, i),
{
    assert(forall|k: u8| k < 4 ==> bit_is_set(byte >> 4u8, k) == bit_is_set(byte, (k + 4) as u8)) by {
        assert forall|k: u8| k < 4 implies bit_is_set(byte >> 4u8, k) == bit_is_set(byte, (k + 4) as u8) by {
            assert(((byte >> 4u8) >> k) & 1u8 == (byte >> ((k + 4) as u8)) & 1u8) by (bit_vector)
                requires
                    k < 4,
            ;
        }
    }
    if i >= 4 {
        let k = (i - 4) as u8;
        assert(bit_is_set(byte >> 4u8, k) == bit_is_set(byte, (k + 4) as u8));
    }
}

/// A row intersects itself exactly when one of its arrows is active.
pub proof fn lemma_row_intersects_itself(row: Row)
    ensures
        row.overlaps(row) <==> row.active() > 0,
{
}

/// The player count and the difficulty of a chart.
///
/// The file's difficulty codes are not in order of difficulty; `difficulty`
/// is, from 0 for the easiest chart to 4 for the hardest.
#[derive(Clone, Copy, Debug, PartialEq, Eq, Structural)]
pub struct Level {
    pub players: u8,
    pub difficulty: u8,
}

impl Level {
    /// One or two players, and one of the five difficulties.
    pub open spec fn valid(self) -> bool {
        (self.players == 1 || self.players == 2) && self.difficulty <= 4
    }

    /// The place of a difficulty code of the file in the order of difficulty.
    pub open spec fn ordered(ssq_difficulty: u8) -> Option<u8> {
        if ssq_difficulty == 4 {
            Some(0u8)
        } else if ssq_difficulty == 1 {
            Some(1u8)
        } else if ssq_difficulty == 2 {
            Some(2u8)
        } else if ssq_difficulty == 3 {
            Some(3u8)
        } else if ssq_difficulty == 6 {
            Some(4u8)
        } else {
            None
        }
    }

    /// What [`Level::new`] returns. The player count is looked at first.
    pub open spec fn decoded(players: u8, ssq_difficulty: u8) -> Result<Level, Error> {
        if players != 1 && players != 2 {
            Err(Error::InvalidPlayerCount(players))
        } else {
            match Level::ordered(ssq_difficulty) {
                Some(difficulty) => Ok(Level { players, difficulty }),
                None => Err(Error::InvalidDifficulty(ssq_difficulty)),
            }
        }
    }

    /// The level that a step chunk's parameter encodes: four times the
    /// player count in its low four bits and the difficulty code in its high
    /// byte.
    pub open spec fn of_parameter(parameter: u16) -> Result<Level, Error> {
        Level::decoded(((parameter % 16) / 4) as u8, (parameter / 256) as u8)
    }

    /// Where a song's table of levels holds this one: the five difficulties
    /// for one player come first.
    pub open spec fn table_index(self) -> int {
        self.difficulty + (self.players - 1) * 5
    }

    /// `Single` or `Double`, a space, and the name of the difficulty.
    pub open spec fn text(self) -> Seq<char> {
        (if self.players == 1 {
            "Single"@
        } else if self.players == 2 {
            "Double"@
        } else {
            "Unknown Number of Players"@
        }) + " "@ + (if self.difficulty == 0 {
            "Beginner"@
        } else if self.difficulty == 1 {
            "Basic"@
        } else if self.difficulty == 2 {
            "Difficult"@
        } else if self.difficulty == 3 {
            "Expert"@
        } else if self.difficulty == 4 {
            "Challenge"@
        } else {
            "Unknown Difficulty"@
        })
    }

    /// Creates a level from a player count and a difficulty code of the
    /// file.
    pub fn new(players: u8, ssq_difficulty: u8) -> (level: Result<Self, Error>)
        ensures
            level == Level::decoded(players, ssq_difficulty),
            level is Ok ==> level->Ok_0.valid(),
    {
        if players != 1 && players != 2 {
            return Err(Error::InvalidPlayerCount(players));
        }
        match Self::ssq_to_ordered(&ssq_difficulty) {
            Ok(difficulty) => Ok(Level { players, difficulty }),
            Err(error) => Err(error),
        }
    }

    /// Maps a difficulty code of the file to its place in the order of
    /// difficulty.
    pub fn ssq_to_ordered(ssq_difficulty: &u8) -> (difficulty: Result<u8, Error>)
        ensures
            match Level::ordered(*ssq_difficulty) {
                Some(ordered) => difficulty == Ok::<u8, Error>(ordered),
                None => difficulty == Err::<u8, Error>(Error::InvalidDifficulty(*ssq_difficulty)),
            },
    {
        match *ssq_difficulty {
            4 => Ok(0),
            1 => Ok(1),
            2 => Ok(2),
            3 => Ok(3),
            6 => Ok(4),
            _ => Err(Error::InvalidDifficulty(*ssq_difficulty)),
        }
    }

    /// Whether the level is one that a chart can have.
    pub fn is_valid(&self) -> (valid: bool)
        ensures
            valid == self.valid(),
    {
        (self.players == 1 || self.players == 2) && self.difficulty <= 4
    }

    /// The level as shown to the player, taken from the song's table of
    /// levels.
    pub fn to_value(&self, levels: &[u8]) -> (value: u8)
        requires
            self.players >= 1,
            self.table_index() < levels@.len(),
        ensures
            value == levels@[self.table_index()],
    {
        let group: usize = (self.players - 1) as usize;
        let index: usize = self.difficulty as usize + group * 5;
        levels[index]
    }

    /// Writes the value as text.
    pub fn to_string(&self) -> (text: String)
        ensures
            text@ == self.text(),
    {
        let players = match self.players {
            1 => "Single",
            2 => "Double",
            _ => "Unknown Number of Players",
        };
        let difficulty = match self.difficulty {
            0 => "Beginner",
            1 => "Basic",
            2 => "Difficult",
            3 => "Expert",
            4 => "Challenge",
            _ => "Unknown Difficulty",
        };
        let mut text = String::from_str(players);
        text.append(" ");
        text.append(difficulty);
        text
    }
}

impl TryFrom<u16> for Level {
    type Error = Error;

    fn try_from(parameter: u16) -> (level: Result<Self, Error>) {
        let players = (parameter & 0xF) as u8 / 4;
        let difficulty = ((parameter & 0xFF00) >> 8) as u8;
        assert(parameter & 0xF == parameter % 16 && (parameter & 0xFF00) >> 8 == parameter / 256) by (bit_vector);
        Self::new(players, difficulty)
    }
}

impl vstd::std_specs::convert::TryFromSpecImpl<u16> for Level {
    open spec fn obeys_try_from_spec() -> bool {
        true
    }

    open spec fn try_from_spec(parameter: u16) -> Result<Self, Error> {
        Level::of_parameter(parameter)
    }
}

/// A stretch of the song with a constant tempo.
///
/// It takes `length_ms` milliseconds and covers the beats from `start_beats`
/// to `end_beats`, so a beat in it lasts
/// `length_ms * UNITS_PER_BEAT / (end_beats - start_beats)` milliseconds. A
/// stretch that takes time and covers no beat is a stop.
#[derive(Clone, Copy, Debug, PartialEq, Eq, Structural)]
pub struct TempoChange {
    pub start_ms: u32,
    pub start_beats: Beats,
    pub end_beats: Beats,
    pub length_ms: u32,
}

impl TempoChange {
    /// Whether the song stands still for the time of this segment.
    pub open spec fn stop(self) -> bool {
        self.start_beats == self.end_beats && self.length_ms > 0
    }

    /// Whether the song stands still for the time of this segment.
    pub fn is_stop(&self) -> (stop: bool)
        ensures
            stop == self.stop(),
    {
        self.start_beats == self.end_beats && self.length_ms > 0
    }
}

/// The distance between entry `i` of `values` and the entry before it.
pub open spec fn step_between(values: Seq<i32>, i: int) -> int
    recommends
        0 < i < values.len(),
{
    if values[i] >= values[i - 1] {
        values[i] - values[i - 1]
    } else {
        values[i - 1] - values[i]
    }
}

/// The whole milliseconds that `ticks` ticks take.
pub open spec fn ticks_to_ms(ticks: int, ticks_per_second: u32) -> int
    recommends
        ticks_per_second > 0,
{
    1000 * ticks / (ticks_per_second as int)
}

/// The time in milliseconds at entry `i` of the tick counts: the sum of the
/// lengths of the segments before it, each rounded down on its own.
pub open spec fn elapsed_ms(ticks: Seq<i32>, ticks_per_second: u32, i: int) -> int
    recommends
        ticks_per_second > 0,
        i < ticks.len(),
    decreases i,
{
    if i <= 0 {
        0
    } else {
        elapsed_ms(ticks, ticks_per_second, i - 1) + ticks_to_ms(step_between(ticks, i), ticks_per_second)
    }
}

/// The position at entry `i` of the measure offsets: the sum of the distances
/// before it. A measure offset has the unit of [`Beats`].
pub open spec fn elapsed_beats(measure: Seq<i32>, i: int) -> int
    recommends
        i < measure.len(),
    decreases i,
{
    if i <= 0 {
        0
    } else {
        elapsed_beats(measure, i - 1) + step_between(measure, i)
    }
}

/// The segment between the entries `i` and `i + 1` of a tempo chunk.
pub open spec fn tempo_segment(ticks_per_second: u32, measure: Seq<i32>, ticks: Seq<i32>, i: int) -> TempoChange
    recommends
        ticks_per_second > 0,
        0 <= i < measure.len() - 1,
        measure.len() == ticks.len(),
{
    TempoChange {
        start_ms: elapsed_ms(ticks, ticks_per_second, i) as u32,
        start_beats: elapsed_beats(measure, i) as u64,
        end_beats: elapsed_beats(measure, i + 1) as u64,
        length_ms: ticks_to_ms(step_between(ticks, i + 1), ticks_per_second) as u32,
    }
}

/// The tempo map of a tempo chunk with the measure offsets `measure` and the
/// tick counts `ticks`: one segment between each two entries, none for a
/// chunk of one entry or none. A chunk with segments needs a tick rate, and
/// its whole length must fit the fields of a segment.
pub open spec fn tempo_map(ticks_per_second: u32, measure: Seq<i32>, ticks: Seq<i32>) -> Result<
    Seq<TempoChange>,
    Error,
>
    recommends
        measure.len() == ticks.len(),
{
    let last = measure.len() - 1;
    if measure.len() <= 1 {
        Ok(Seq::empty())
    } else if ticks_per_second == 0 {
        Err(Error::InvalidTickRate)
    } else if elapsed_ms(ticks, ticks_per_second, last) > u32::MAX || elapsed_beats(measure, last) > u64::MAX {
        Err(Error::TryFromIntError)
    } else {
        Ok(Seq::new(last as nat, |i: int| tempo_segment(ticks_per_second, measure, ticks, i)))
    }
}

/// Whether the segments follow each other without a gap, in beats and in
/// time, from beat 0 at time 0.
pub open spec fn contiguous(segments: Seq<TempoChange>) -> bool {
    &&& segments.len() > 0 ==> segments[0].start_ms == 0 && segments[0].start_beats == 0
    &&& forall|i: int|
        0 <= i < segments.len() ==> (#[trigger] segments[i]).start_beats <= segments[i].end_beats
            && segments[i].start_ms + segments[i].length_ms <= u32::MAX
    &&& forall|i: int|
        0 <= i < segments.len() - 1 ==> (#[trigger] segments[i]).end_beats == segments[i + 1].start_beats
            && segments[i].start_ms + segments[i].length_ms == segments[i + 1].start_ms
}

/// The tempo map of a song, in the order of the song.
#[derive(Clone, Debug, PartialEq)]
pub struct TempoChanges(pub Vec<TempoChange>);

impl TempoChanges {
    /// What [`TempoChanges::parse`] returns on the payload `data` of a tempo
    /// chunk: the payload is a count, as many measure offsets and as many
    /// tick counts.
    pub open spec fn parsed(ticks_per_second: u32, data: Seq<u8>) -> Result<Seq<TempoChange>, Error> {
        let count = le_u32(data);
        let table = le_i32_table(data.skip(4), count);
        let second = le_i32_table(data.skip(4 + 4 * count), count);
        if data.len() < 4 {
            Err(Error::IOError(IOErrorKind::UnexpectedEof))
        } else if table is Err {
            Err(Error::MiniParserError(table->Err_0))
        } else if second is Err {
            Err(Error::MiniParserError(second->Err_0))
        } else {
            tempo_map(ticks_per_second, table->Ok_0, second->Ok_0)
        }
    }

    /// The segments follow each other without a gap.
    pub open spec fn well_formed(self) -> bool {
        contiguous(self.0@)
    }

    /// Reads the tempo map from the payload of a tempo chunk, of which the
    /// parameter gives the ticks per second.
    pub fn parse(ticks_per_second: u32, data: &[u8]) -> (tempo_changes: Result<Self, Error>)
        ensures
            match TempoChanges::parsed(ticks_per_second, data@) {
                Ok(segments) => tempo_changes is Ok && tempo_changes->Ok_0.0@ == segments
                    && tempo_changes->Ok_0.well_formed(),
                Err(error) => tempo_changes is Err && tempo_changes->Err_0 == error,
            },
    {
        let mut cursor = Cursor::new(data);
        let count = match cursor.read_u32_le() {
            Ok(count) => count as usize,
            Err(kind) => {
                return Err(Error::IOError(kind));
            },
        };
        let measure = match cursor.read_n_i32(count) {
            Ok(measure) => measure,
            Err(error) => {
                return Err(Error::MiniParserError(error));
            },
        };
        assert(cursor.unread() == data@.skip(4 + 4 * count)) by {
            assert(data@.skip(4).skip(4 * count) =~= data@.skip(4 + 4 * count));
        }
        let tempo_data = match cursor.read_n_i32(count) {
            Ok(tempo_data) => tempo_data,
            Err(error) => {
                return Err(Error::MiniParserError(error));
            },
        };
        if count >= 2 && ticks_per_second == 0 {
            return Err(Error::InvalidTickRate);
        }
        let ghost last = count - 1;
        assert(TempoChanges::parsed(ticks_per_second, data@) == tempo_map(ticks_per_second, measure@, tempo_data@));
        let mut entries: Vec<TempoChange> = Vec::new();
        let mut elapsed: u32 = 0;
        let mut position: u64 = 0;
        let mut i: usize = 1;
        while i < count
            invariant
                1 <= i,
                i <= count || i == 1,
                count >= 2 ==> ticks_per_second > 0,
                last == count - 1,
                TempoChanges::parsed(ticks_per_second, data@) == tempo_map(ticks_per_second, measure@, tempo_data@),
                measure@.len() == count,
                tempo_data@.len() == count,
                elapsed == elapsed_ms(tempo_data@, ticks_per_second, i - 1),
                position == elapsed_beats(measure@, i - 1),
                entries@ == Seq::new(
                    (i - 1) as nat,
                    |k: int| tempo_segment(ticks_per_second, measure@, tempo_data@, k),
                ),
            decreases count - i,
        {
            let delta_measure = distance(measure[i], measure[i - 1]);
            let delta_ticks = distance(tempo_data[i], tempo_data[i - 1]);
            let length_ms: u64 = 1000 * (delta_ticks as u64) / (ticks_per_second as u64);
            proof {
                lemma_elapsed_grows(measure@, tempo_data@, ticks_per_second, i as int, last);
            }
            if length_ms > u32::MAX as u64 - elapsed as u64 {
                return Err(Error::TryFromIntError);
            }
            let end = match position.checked_add(delta_measure as u64) {
                Some(end) => end,
                None => {
                    return Err(Error::TryFromIntError);
                },
            };
            entries.push(
                TempoChange { start_ms: elapsed, start_beats: position, end_beats: end, length_ms: length_ms as u32 },
            );
            elapsed = elapsed + length_ms as u32;
            position = end;
            i = i + 1;
            assert(entries@ =~= Seq::new(
                (i - 1) as nat,
                |k: int| tempo_segment(ticks_per_second, measure@, tempo_data@, k),
            ));
        }
        proof {
            if count >= 2 {
                lemma_tempo_map_contiguous(ticks_per_second, measure@, tempo_data@);
            }
            assert(entries@ =~= tempo_map(ticks_per_second, measure@, tempo_data@)->Ok_0);
        }
        Ok(TempoChanges(entries))
    }
}

/// The distance between two numbers.
fn distance(a: i32, b: i32) -> (d: u32)
    ensures
        d == if a >= b {
            a - b
        } else {
            b - a
        },
{
    if a >= b {
        (a as i64 - b as i64) as u32
    } else {
        (b as i64 - a as i64) as u32
    }
}

/// The time and the position at an entry of a tempo chunk are at least those
/// at an earlier entry.
pub proof fn lemma_elapsed_grows(measure: Seq<i32>, ticks: Seq<i32>, ticks_per_second: u32, i: int, j: int)
    requires
        ticks_per_second > 0,
        i <= j,
    ensures
        0 <= elapsed_ms(ticks, ticks_per_second, i) <= elapsed_ms(ticks, ticks_per_second, j),
        0 <= elapsed_beats(measure, i) <= elapsed_beats(measure, j),
        0 <= ticks_to_ms(step_between(ticks, i), ticks_per_second),
    decreases j - i, i,
{
    let d = step_between(ticks, i);
    assert(0 <= 1000 * d / (ticks_per_second as int)) by (nonlinear_arith)
        requires
            d >= 0,
            ticks_per_second > 0,
    ;
    if i < j {
        lemma_elapsed_grows(measure, ticks, ticks_per_second, i, j - 1);
        if j > 0 {
            let e = step_between(ticks, j);
            assert(0 <= 1000 * e / (ticks_per_second as int)) by (nonlinear_arith)
                requires
                    e >= 0,
                    ticks_per_second > 0,
            ;
        }
    } else if i > 0 {
        lemma_elapsed_grows(measure, ticks, ticks_per_second, i - 1, i - 1);
    }
}

/// In a tempo map each segment ends, in beats and in time, where the next one
/// starts, so that no start time is before an earlier one.
pub proof fn lemma_tempo_map_contiguous(ticks_per_second: u32, measure: Seq<i32>, ticks: Seq<i32>)
    requires
        measure.len() == ticks.len(),
        tempo_map(ticks_per_second, measure, ticks) is Ok,
    ensures
        contiguous(tempo_map(ticks_per_second, measure, ticks)->Ok_0),
        forall|i: int, j: int|
            0 <= i <= j < tempo_map(ticks_per_second, measure, ticks)->Ok_0.len() ==> tempo_map(
                ticks_per_second,
                measure,
                ticks,
            )->Ok_0[i].start_ms <= tempo_map(ticks_per_second, measure, ticks)->Ok_0[j].start_ms,
{
    let segments = tempo_map(ticks_per_second, measure, ticks)->Ok_0;
    let last = measure.len() - 1;
    if measure.len() > 1 {
        assert forall|i: int| 0 <= i < segments.len() implies (#[trigger] segments[i]).start_beats
            <= segments[i].end_beats && segments[i].start_ms + segments[i].length_ms <= u32::MAX && (i < segments.len()
            - 1 ==> segments[i].end_beats == segments[i + 1].start_beats && segments[i].start_ms
            + segments[i].length_ms == segments[i + 1].start_ms) by {
            lemma_elapsed_grows(measure, ticks, ticks_per_second, i, i + 1);
            lemma_elapsed_grows(measure, ticks, ticks_per_second, i + 1, last);
        }
        assert forall|i: int, j: int| 0 <= i <= j < segments.len() implies segments[i].start_ms
            <= segments[j].start_ms by {
            lemma_elapsed_grows(measure, ticks, ticks_per_second, i, j);
            lemma_elapsed_grows(measure, ticks, ticks_per_second, j, last);
        }
    }
}

/// One event of a chart.
#[derive(Clone, Copy, Debug, PartialEq, Eq, Structural)]
pub enum Step {
    /// Arrows to step on at `beats`.
    Step { beats: Beats, row: Row },
    /// An arrow to hold down from `start` to `end`.
    Freeze { start: Beats, end: Beats, row: Row },
    /// A shock arrow at `beats`, which has no column of its own.
    Shock { beats: Beats },
}

impl Step {
    /// Whether the arrows of the step, if it has any, are those of `players`
    /// players.
    pub open spec fn is_for(self, players: u8) -> bool {
        match self {
            Step::Step { row, .. } => row.players() == players,
            Step::Freeze { row, .. } => row.players() == players,
            Step::Shock { .. } => true,
        }
    }

    /// The beat at which the step happens or, for a freeze, starts.
    pub open spec fn start(self) -> Beats {
        match self {
            Step::Step { beats, .. } => beats,
            Step::Freeze { start, .. } => start,
            Step::Shock { beats } => beats,
        }
    }

    /// Whether the step is a plain one with an arrow that `row` has too.
    pub open spec fn tap_on(self, row: Row) -> bool {
        match self {
            Step::Step { row: own, .. } => own.overlaps(row),
            _ => false,
        }
    }

    /// Whether the arrows of the step, if it has any, are those of `players`
    /// players.
    pub fn is_for_players(&self, players: u8) -> (fits: bool)
        ensures
            fits == self.is_for(players),
    {
        match self {
            Step::Step { row, .. } => row.players_count() == players,
            Step::Freeze { row, .. } => row.players_count() == players,
            Step::Shock { .. } => true,
        }
    }

    /// The beat at which the step happens or, for a freeze, starts.
    pub fn start_beats(&self) -> (beats: Beats)
        ensures
            beats == self.start(),
    {
        match self {
            Step::Step { beats, .. } => *beats,
            Step::Freeze { start, .. } => *start,
            Step::Shock { beats } => *beats,
        }
    }
}

/// The mask that stands for a shock arrow: all the columns of the chart.
pub open spec fn shock_mask(players: u8) -> u8 {
    if players == 2 {
        0xFF
    } else {
        0x0F
    }
}

/// The freeze records of a step chunk: what follows the masks, without the
/// zero bytes that pad it in front.
pub open spec fn without_padding(bytes: Seq<u8>) -> Seq<u8>
    decreases bytes.len(),
{
    if bytes.len() > 0 && bytes[0] == 0 {
        without_padding(bytes.skip(1))
    } else {
        bytes
    }
}

/// The index of the last of the first `n` steps that is a plain step with an
/// arrow that `row` has too.
pub open spec fn last_tap(steps: Seq<Step>, row: Row, n: int) -> Option<int>
    recommends
        n <= steps.len(),
    decreases n,
{
    if n <= 0 {
        None
    } else if steps[n - 1].tap_on(row) {
        Some(n - 1)
    } else {
        last_tap(steps, row, n - 1)
    }
}

/// How far the decoding of a step chunk has come.
pub struct Decoding {
    /// The steps found so far, in the order of the chunk.
    pub steps: Seq<Step>,
    /// For each of these steps, whether a later freeze starts with it.
    pub held: Seq<bool>,
    /// How many freeze records have been used.
    pub freezes: int,
}

impl Decoding {
    /// The state before the first record.
    pub open spec fn start() -> Decoding {
        Decoding { steps: Seq::empty(), held: Seq::empty(), freezes: 0 }
    }

    /// The state after one more step.
    pub open spec fn with(self, step: Step) -> Decoding {
        Decoding { steps: self.steps.push(step), held: self.held.push(false), freezes: self.freezes }
    }

    /// The state after the record with the offset `measure` and the mask
    /// `mask`.
    ///
    /// A mask with all columns is a shock arrow. A mask of zero refers to the
    /// next freeze record, a column mask and a type. Type 1 ends a freeze:
    /// with at most one column, it turns the last plain step on that column
    /// into the start of a freeze, or becomes a plain step where there is
    /// none; with more columns it is passed over, as are the other types.
    /// Every other mask is a plain step.
    pub open spec fn record(self, players: u8, measure: i32, mask: u8, freeze: Seq<u8>) -> Result<Decoding, Error> {
        let beats = measure as u64;
        let row = Row::decoded(freeze[2 * self.freezes], players)->Ok_0;
        let used = Decoding { freezes: self.freezes + 1, ..self };
        if measure < 0 {
            Err(Error::TryFromIntError)
        } else if mask == shock_mask(players) {
            Ok(self.with(Step::Shock { beats }))
        } else if mask != 0 {
            Ok(self.with(Step::Step { beats, row: Row::decoded(mask, players)->Ok_0 }))
        } else if freeze.len() < 2 * self.freezes + 2 {
            Err(Error::NotEnoughFreezeData)
        } else if freeze[2 * self.freezes + 1] != 1 || row.active() > 1 {
            Ok(used)
        } else {
            match last_tap(self.steps, row, self.steps.len() as int) {
                Some(tap) => Ok(
                    Decoding {
                        steps: self.steps.push(Step::Freeze { start: self.steps[tap].start(), end: beats, row }),
                        held: self.held.update(tap, true).push(false),
                        freezes: self.freezes + 1,
                    },
                ),
                None => Ok(used.with(Step::Step { beats, row })),
            }
        }
    }

    /// The state after the first `n` records of a chunk, or the error of the
    /// first record that has one.
    pub open spec fn records(players: u8, measures: Seq<i32>, masks: Seq<u8>, freeze: Seq<u8>, n: int) -> Result<
        Decoding,
        Error,
    >
        recommends
            n <= measures.len(),
            n <= masks.len(),
        decreases n,
    {
        if n <= 0 {
            Ok(Decoding::start())
        } else {
            match Decoding::records(players, measures, masks, freeze, n - 1) {
                Ok(state) => state.record(players, measures[n - 1], masks[n - 1], freeze),
                Err(error) => Err(error),
            }
        }
    }

    /// The first `n` steps without those that start a freeze.
    pub open spec fn kept(self, n: int) -> Seq<Step>
        recommends
            n <= self.steps.len(),
            self.steps.len() == self.held.len(),
        decreases n,
    {
        if n <= 0 {
            Seq::empty()
        } else if self.held[n - 1] {
            self.kept(n - 1)
        } else {
            self.kept(n - 1).push(self.steps[n - 1])
        }
    }
}

/// A chart as a value: its level and its steps in order.
pub struct ChartView {
    pub difficulty: Level,
    pub steps: Seq<Step>,
}

/// The steps of one difficulty.
#[derive(Clone, Debug, PartialEq)]
pub struct Chart {
    pub difficulty: Level,
    pub steps: Vec<Step>,
}

impl View for Chart {
    type V = ChartView;

    open spec fn view(&self) -> ChartView {
        ChartView { difficulty: self.difficulty, steps: self.steps@ }
    }
}

impl Chart {
    /// The level is one that a chart can have, and the steps are for as many
    /// players as the level says.
    pub open spec fn well_formed(self) -> bool {
        &&& self.difficulty.valid()
        &&& forall|i: int| 0 <= i < self.steps@.len() ==> (#[trigger] self.steps@[i]).is_for(self.difficulty.players)
    }

    /// Whether the level is one that a chart can have and the steps are for
    /// as many players as the level says.
    pub fn is_well_formed(&self) -> (well_formed: bool)
        ensures
            well_formed == self.well_formed(),
    {
        if !self.difficulty.is_valid() {
            return false;
        }
        let mut i: usize = 0;
        while i < self.steps.len()
            invariant
                i <= self.steps@.len(),
                forall|k: int| 0 <= k < i ==> (#[trigger] self.steps@[k]).is_for(self.difficulty.players),
            decreases self.steps@.len() - i,
        {
            if !self.steps[i].is_for_players(self.difficulty.players) {
                return false;
            }
            i = i + 1;
        }
        true
    }

    /// What [`Chart::parse`] returns on the payload `data` of a step chunk
    /// with the parameter `parameter`: the payload is a count, as many
    /// measure offsets, as many masks, and the freeze records.
    pub open spec fn parsed(data: Seq<u8>, parameter: u16) -> Result<ChartView, Error> {
        let level = Level::of_parameter(parameter);
        let count = le_u32(data);
        let measures = le_i32_table(data.skip(4), count);
        let masks = data.subrange(4 + 4 * count, 4 + 5 * count);
        let freeze = without_padding(data.skip(4 + 5 * count));
        if level is Err {
            Err(level->Err_0)
        } else if data.len() < 4 {
            Err(Error::IOError(IOErrorKind::UnexpectedEof))
        } else if measures is Err {
            Err(Error::MiniParserError(measures->Err_0))
        } else if data.len() < 4 + 5 * count {
            Err(Error::IOError(IOErrorKind::UnexpectedEof))
        } else {
            match Decoding::records(level->Ok_0.players, measures->Ok_0, masks, freeze, count) {
                Ok(state) => Ok(
                    ChartView { difficulty: level->Ok_0, steps: state.kept(state.steps.len() as int) },
                ),
                Err(error) => Err(error),
            }
        }
    }

    /// Reads a chart from the payload and the parameter of a step chunk.
    pub fn parse(data: &[u8], parameter: u16) -> (chart: Result<Self, Error>)
        ensures
            match Chart::parsed(data@, parameter) {
                Ok(view) => chart is Ok && chart->Ok_0@ == view && chart->Ok_0.well_formed(),
                Err(error) => chart is Err && chart->Err_0 == error,
            },
    {
        let difficulty = match Level::try_from(parameter) {
            Ok(difficulty) => difficulty,
            Err(error) => {
                return Err(error);
            },
        };
        let players = difficulty.players;
        let mut cursor = Cursor::new(data);
        let count = match cursor.read_u32_le() {
            Ok(count) => count as usize,
            Err(kind) => {
                return Err(Error::IOError(kind));
            },
        };
        let measures = match cursor.read_n_i32(count) {
            Ok(measures) => measures,
            Err(error) => {
                return Err(Error::MiniParserError(error));
            },
        };
        let masks = match cursor.read_exact(count) {
            Ok(masks) => masks,
            Err(kind) => {
                return Err(Error::IOError(kind));
            },
        };
        let freeze_data = skip_padding(cursor.read_to_end());
        proof {
            assert(data@.skip(4).skip(4 * count) =~= data@.skip(4 + 4 * count));
            assert(data@.skip(4 + 4 * count).take(count as int) =~= data@.subrange(4 + 4 * count, 4 + 5 * count));
            assert(data@.skip(4 + 4 * count).skip(count as int) =~= data@.skip(4 + 5 * count));
        }
        let ghost mut state = Decoding::start();
        let ghost all = Decoding::records(players, measures@, masks@, freeze_data@, count as int);
        assert(Chart::parsed(data@, parameter) == match all {
            Ok(last) => Ok::<ChartView, Error>(ChartView { difficulty, steps: last.kept(last.steps.len() as int) }),
            Err(error) => Err::<ChartView, Error>(error),
        });
        let mut steps: Vec<Step> = Vec::new();
        let mut held: Vec<bool> = Vec::new();
        let mut used: usize = 0;
        let mut step: usize = 0;
        while step < count
            invariant
                step <= count,
                players == 1 || players == 2,
                measures@.len() == count,
                masks@.len() == count,
                all == Decoding::records(players, measures@, masks@, freeze_data@, count as int),
                Chart::parsed(data@, parameter) == match all {
                    Ok(last) => Ok::<ChartView, Error>(
                        ChartView { difficulty, steps: last.kept(last.steps.len() as int) },
                    ),
                    Err(error) => Err::<ChartView, Error>(error),
                },
                Decoding::records(players, measures@, masks@, freeze_data@, step as int) == Ok::<Decoding, Error>(
                    state,
                ),
                state.steps == steps@,
                state.held == held@,
                steps@.len() == held@.len(),
                forall|k: int| 0 <= k < steps@.len() ==> (#[trigger] steps@[k]).is_for(players),
                state.freezes == used,
                2 * used <= freeze_data@.len(),
            decreases count - step,
        {
            let ghost next = state.record(players, measures@[step as int], masks@[step as int], freeze_data@);
            proof {
                assert(Decoding::records(players, measures@, masks@, freeze_data@, step as int + 1) == next);
                if next is Err {
                    lemma_records_fail(players, measures@, masks@, freeze_data@, step as int + 1, count as int);
                }
            }
            if measures[step] < 0 {
                return Err(Error::TryFromIntError);
            }
            let beats = measures[step] as u64;
            let mask = masks[step];
            if (players == 2 && mask == 0xff) || (players != 2 && mask == 0xf) {
                steps.push(Step::Shock { beats });
                held.push(false);
            } else if mask != 0x00 {
                let row = match Row::new(mask, players) {
                    Ok(row) => row,
                    Err(error) => {
                        return Err(error);
                    },
                };
                steps.push(Step::Step { beats, row });
                held.push(false);
            } else {
                if freeze_data.len() - 2 * used < 2 {
                    return Err(Error::NotEnoughFreezeData);
                }
                let columns = freeze_data[2 * used];
                let extra_type = freeze_data[2 * used + 1];
                used = used + 1;
                if extra_type == 1 {
                    let row = match Row::new(columns, players) {
                        Ok(row) => row,
                        Err(error) => {
                            return Err(error);
                        },
                    };
                    if row.count_active() <= 1 {
                        match Self::find_last(&steps, &row) {
                            Some(last_step) => {
                                let start = steps[last_step].start_beats();
                                steps.push(Step::Freeze { start, end: beats, row });
                                held.set(last_step, true);
                                held.push(false);
                            },
                            None => {
                                steps.push(Step::Step { beats, row });
                                held.push(false);
                            },
                        }
                    }
                }
            }
            proof {
                state = next->Ok_0;
            }
            step = step + 1;
        }
        let mut kept: Vec<Step> = Vec::new();
        let mut i: usize = 0;
        while i < steps.len()
            invariant
                difficulty.valid(),
                difficulty.players == players,
                Chart::parsed(data@, parameter) == Ok::<ChartView, Error>(
                    ChartView { difficulty, steps: state.kept(state.steps.len() as int) },
                ),
                forall|k: int| 0 <= k < steps@.len() ==> (#[trigger] steps@[k]).is_for(players),
                forall|k: int| 0 <= k < kept@.len() ==> (#[trigger] kept@[k]).is_for(players),
                i <= steps@.len(),
                steps@.len() == held@.len(),
                state.steps == steps@,
                state.held == held@,
                kept@ == state.kept(i as int),
            decreases steps@.len() - i,
        {
            if !held[i] {
                kept.push(steps[i]);
            }
            i = i + 1;
        }
        Ok(Chart { difficulty, steps: kept })
    }

    /// Finds the last plain step that has an arrow in common with `row`.
    pub fn find_last(steps: &Vec<Step>, row: &Row) -> (index: Option<usize>)
        ensures
            index is Some <==> last_tap(steps@, *row, steps@.len() as int) is Some,
            index is Some ==> index->0 == last_tap(steps@, *row, steps@.len() as int)->0 && index->0 < steps@.len()
                && steps@[index->0 as int].tap_on(*row),
    {
        let mut i: usize = steps.len();
        while i > 0
            invariant
                i <= steps@.len(),
                last_tap(steps@, *row, steps@.len() as int) == last_tap(steps@, *row, i as int),
            decreases i,
        {
            i = i - 1;
            if let Step::Step { row: step_row, .. } = &steps[i] {
                if step_row.intersects(*row) {
                    return Some(i);
                }
            }
        }
        None
    }
}

/// A step chart file as a value.
pub struct SSQView {
    pub tempo_changes: Seq<TempoChange>,
    pub charts: Seq<ChartView>,
}

/// The charts as values.
pub open spec fn chart_views(charts: Seq<Chart>) -> Seq<ChartView> {
    Seq::new(charts.len(), |i: int| charts[i]@)
}

/// A step chart file: the tempo map of a song and its charts.
#[derive(Clone, Debug, PartialEq)]
pub struct SSQ {
    pub tempo_changes: TempoChanges,
    pub charts: Vec<Chart>,
}

impl View for SSQ {
    type V = SSQView;

    open spec fn view(&self) -> SSQView {
        SSQView { tempo_changes: self.tempo_changes.0@, charts: chart_views(self.charts@) }
    }
}

/// One chunk of a file as a value.
pub struct ChunkView {
    pub chunk_type: u16,
    pub parameter: u16,
    pub payload: Seq<u8>,
}

/// One chunk of a file.
pub struct Chunk<'a> {
    pub chunk_type: u16,
    pub parameter: u16,
    pub payload: &'a [u8],
}

impl<'a> View for Chunk<'a> {
    type V = ChunkView;

    open spec fn view(&self) -> ChunkView {
        ChunkView { chunk_type: self.chunk_type, parameter: self.parameter, payload: self.payload@ }
    }
}

impl<'a> Chunk<'a> {
    /// The chunk at the start of `data`, or nothing where the file ends
    /// there.
    ///
    /// A chunk starts with its length, its type and a parameter, in eight
    /// bytes that the length counts. A length of zero ends the file.
    pub open spec fn first(data: Seq<u8>) -> Result<Option<ChunkView>, Error> {
        let length = le_i32(data);
        if data.len() < 4 {
            Err(Error::IOError(IOErrorKind::UnexpectedEof))
        } else if length < 0 {
            Err(Error::TryFromIntError)
        } else if length == 0 {
            Ok(None)
        } else if data.len() < 8 {
            Err(Error::IOError(IOErrorKind::UnexpectedEof))
        } else if length < 8 {
            Err(Error::TryFromIntError)
        } else if data.len() < length {
            Err(Error::IOError(IOErrorKind::UnexpectedEof))
        } else {
            Ok(
                Some(
                    ChunkView {
                        chunk_type: le_u16(data.skip(4)) as u16,
                        parameter: le_u16(data.skip(6)) as u16,
                        payload: data.subrange(8, length),
                    },
                ),
            )
        }
    }

    /// Reads the next chunk, or nothing at the end of the file.
    pub fn read(cursor: &mut Cursor<'a>) -> (chunk: Result<Option<Self>, Error>)
        ensures
            match Chunk::first(old(cursor).remaining()) {
                Ok(Some(view)) => chunk is Ok && chunk->Ok_0 is Some && chunk->Ok_0->0@ == view
                    && final(cursor).remaining() == old(cursor).remaining().skip(8 + view.payload.len() as int),
                Ok(None) => chunk is Ok && chunk->Ok_0 is None,
                Err(error) => chunk is Err && chunk->Err_0 == error,
            },
    {
        let ghost unread = cursor.remaining();
        let length = match cursor.read_i32_le() {
            Ok(length) => length,
            Err(kind) => {
                return Err(Error::IOError(kind));
            },
        };
        if length < 0 {
            return Err(Error::TryFromIntError);
        }
        if length == 0 {
            return Ok(None);
        }
        let chunk_type = match cursor.read_u16_le() {
            Ok(chunk_type) => chunk_type,
            Err(kind) => {
                return Err(Error::IOError(kind));
            },
        };
        let parameter = match cursor.read_u16_le() {
            Ok(parameter) => parameter,
            Err(kind) => {
                return Err(Error::IOError(kind));
            },
        };
        if length < 8 {
            return Err(Error::TryFromIntError);
        }
        let payload = match cursor.read_exact((length - 8) as usize) {
            Ok(payload) => payload,
            Err(kind) => {
                return Err(Error::IOError(kind));
            },
        };
        proof {
            assert(unread.skip(4).skip(2) =~= unread.skip(6));
            assert(unread.skip(6).skip(2) =~= unread.skip(8));
            assert(unread.skip(8).take(length - 8) =~= unread.subrange(8, length as int));
            assert(unread.skip(8).skip(length - 8) =~= unread.skip(length as int));
        }
        Ok(Some(Chunk { chunk_type, parameter, payload }))
    }
}

impl SSQView {
    /// The file with one more chunk. A chunk of type 1 is the tempo map, with
    /// the ticks per second as its parameter, and replaces an earlier one. A
    /// chunk of type 3 is one more chart. Chunks of other types are passed
    /// over.
    pub open spec fn with(self, chunk: ChunkView) -> Result<SSQView, Error> {
        if chunk.chunk_type == 1 {
            match TempoChanges::parsed(chunk.parameter as u32, chunk.payload) {
                Ok(tempo_changes) => Ok(SSQView { tempo_changes, charts: self.charts }),
                Err(error) => Err(error),
            }
        } else if chunk.chunk_type == 3 {
            match Chart::parsed(chunk.payload, chunk.parameter) {
                Ok(chart) => Ok(SSQView { tempo_changes: self.tempo_changes, charts: self.charts.push(chart) }),
                Err(error) => Err(error),
            }
        } else {
            Ok(self)
        }
    }
}

impl SSQ {
    /// What the chunks in `data` make of what was `found` before them.
    pub open spec fn chunks(data: Seq<u8>, found: SSQView) -> Result<SSQView, Error>
        decreases data.len(),
    {
        match Chunk::first(data) {
            Ok(Some(chunk)) => match found.with(chunk) {
                Ok(next) => SSQ::chunks(data.skip(8 + chunk.payload.len() as int), next),
                Err(error) => Err(error),
            },
            Ok(None) => Ok(found),
            Err(error) => Err(error),
        }
    }

    /// What [`SSQ::parse`] returns on the bytes of a file.
    pub open spec fn parsed(data: Seq<u8>) -> Result<SSQView, Error> {
        SSQ::chunks(data, SSQView { tempo_changes: Seq::empty(), charts: Seq::empty() })
    }

    /// Each chart is well formed.
    pub open spec fn convertible(self) -> bool {
        forall|i: int| 0 <= i < self.charts@.len() ==> (#[trigger] self.charts@[i]).well_formed()
    }

    /// Whether each chart is well formed.
    pub fn is_convertible(&self) -> (convertible: bool)
        ensures
            convertible == self.convertible(),
    {
        let mut i: usize = 0;
        while i < self.charts.len()
            invariant
                i <= self.charts@.len(),
                forall|k: int| 0 <= k < i ==> (#[trigger] self.charts@[k]).well_formed(),
            decreases self.charts@.len() - i,
        {
            if !self.charts[i].is_well_formed() {
                return false;
            }
            i = i + 1;
        }
        true
    }

    /// The tempo map is without gaps and each chart is well formed.
    pub open spec fn well_formed(self) -> bool {
        self.tempo_changes.well_formed() && self.convertible()
    }

    /// Takes one more chunk into the file.
    fn add(&mut self, chunk: Chunk) -> (added: Result<(), Error>)
        requires
            old(self).well_formed(),
        ensures
            match old(self)@.with(chunk@) {
                Ok(view) => added is Ok && final(self)@ == view && final(self).well_formed(),
                Err(error) => added is Err && added->Err_0 == error,
            },
    {
        match chunk.chunk_type {
            1 => {
                self.tempo_changes = match TempoChanges::parse(chunk.parameter as u32, chunk.payload) {
                    Ok(tempo_changes) => tempo_changes,
                    Err(error) => {
                        return Err(error);
                    },
                };
            },
            3 => {
                let chart = match Chart::parse(chunk.payload, chunk.parameter) {
                    Ok(chart) => chart,
                    Err(error) => {
                        return Err(error);
                    },
                };
                self.charts.push(chart);
                assert(self@.charts =~= old(self)@.charts.push(chart@));
            },
            _ => {},
        }
        Ok(())
    }

    /// Reads a step chart file.
    pub fn parse(data: &[u8]) -> (ssq: Result<Self, Error>)
        ensures
            match SSQ::parsed(data@) {
                Ok(view) => ssq is Ok && ssq->Ok_0@ == view && ssq->Ok_0.well_formed(),
                Err(error) => ssq is Err && ssq->Err_0 == error,
            },
    {
        let mut cursor = Cursor::new(data);
        let mut ssq = SSQ { tempo_changes: TempoChanges(Vec::new()), charts: Vec::new() };
        assert(ssq@.charts =~= Seq::empty());
        loop
            invariant
                SSQ::parsed(data@) == SSQ::chunks(cursor.remaining(), ssq@),
                ssq.well_formed(),
            decreases cursor.remaining().len(),
        {
            let chunk = match Chunk::read(&mut cursor) {
                Ok(Some(chunk)) => chunk,
                Ok(None) => {
                    return Ok(ssq);
                },
                Err(error) => {
                    return Err(error);
                },
            };
            match ssq.add(chunk) {
                Ok(()) => {},
                Err(error) => {
                    return Err(error);
                },
            }
        }
    }
}

/// Skips the zero bytes in front of `bytes`.
fn skip_padding(bytes: &[u8]) -> (rest: &[u8])
    ensures
        rest@ == without_padding(bytes@),
{
    let mut start: usize = 0;
    assert(bytes@.skip(0) =~= bytes@);
    while start < bytes.len() && bytes[start] == 0
        invariant
            start <= bytes@.len(),
            without_padding(bytes@) == without_padding(bytes@.skip(start as int)),
        decreases bytes@.len() - start,
    {
        assert(bytes@.skip(start as int).skip(1) =~= bytes@.skip(start as int + 1));
        start = start + 1;
    }
    vstd::slice::slice_subrange(bytes, start, bytes.len())
}

/// Once a record cannot be decoded, the chunk cannot: the error of the first
/// `n` records is that of any longer run of records.
pub proof fn lemma_records_fail(players: u8, measures: Seq<i32>, masks: Seq<u8>, freeze: Seq<u8>, n: int, m: int)
    requires
        n <= m,
        Decoding::records(players, measures, masks, freeze, n) is Err,
    ensures
        Decoding::records(players, measures, masks, freeze, m) == Decoding::records(
            players,
            measures,
            masks,
            freeze,
            n,
        ),
    decreases m - n,
{
    if n < m {
        lemma_records_fail(players, measures, masks, freeze, n, m - 1);
    }
}

} // verus!

//! Turns step charts into the timed hit objects of a beatmap for a keyboard
//! with one key for each arrow.

use crate::ddr::ssq::{
    contiguous, Beats, Chart, Level, Step, TempoChange, TempoChanges, SSQ, UNITS_PER_BEAT,
};
use crate::osu::beatmap::{
    BeatLength, General, GeneralBuilder, HitObjects, Metadata, MetadataBuilder, TimingPoint, TimingPointEffects,
    TimingPoints,
};
use crate::osu::beatmap::hit_object::{
    HitCircleView, HitObject, HitObjectView, HoldBuilder, HoldView, ManiaHitCircleBuilder,
};
use crate::osu::types::{Countdown, HitSampleView, HitSound, Mode, OsuPixel, SampleSet, Time};
use crate::utils::{decimal, push_decimal};
use vstd::prelude::*;
use vstd::string::StringExecFns;

verus! {

/// What to do with shock arrows, which have no column of their own.
#[derive(Clone, Copy, Debug, PartialEq, Eq, Structural)]
pub enum ShockAction {
    /// Leave them out.
    Ignore,
    /// Put each on a pair of keys, another pair for each shock.
    Step,
}

/// What a beatmap says of its song.
#[derive(Clone, Debug)]
pub struct ConfigMetadata {
    pub title: Option<String>,
    pub artist: Option<String>,
    pub source: String,
    /// The song's table of levels.
    pub levels: Option<Vec<u8>>,
}

/// The pair of keys for a shock arrow at the column position `position` of a
/// keyboard of `columns` keys.
///
/// Each player has two pairs, the outer keys and the inner keys. The pairs
/// take turns, a player's outer pair before the inner one and the first
/// player's before the second player's.
pub open spec fn shock_pair(columns: u8, position: u8) -> Seq<u8>
    recommends
        columns == 4 || columns == 8,
{
    let pair = position % (columns / 2) as u8;
    let first = (4 * (pair / 2)) as u8;
    if pair % 2 == 0 {
        seq![first, (first + 3) as u8]
    } else {
        seq![(first + 1) as u8, (first + 2) as u8]
    }
}

/// Gives the keys for one shock arrow after the other.
///
/// It keeps a column position that moves on by one with each shock and starts
/// again at the end of the keyboard.
pub struct ShockStepGenerator {
    last: u8,
    columns: u8,
    mode: ShockAction,
}

impl ShockStepGenerator {
    #[verifier::type_invariant]
    spec fn on_keyboard(self) -> bool {
        (self.columns == 4 || self.columns == 8) && self.last < self.columns
    }

    /// The column position of the next shock.
    pub closed spec fn position(self) -> u8 {
        self.last
    }

    /// The number of keys.
    pub closed spec fn columns(self) -> u8 {
        self.columns
    }

    /// What the generator does with shock arrows.
    pub closed spec fn mode(self) -> ShockAction {
        self.mode
    }

    /// What the next call of [`ShockStepGenerator::next`] returns.
    pub open spec fn upcoming(self) -> Option<Seq<u8>> {
        match self.mode() {
            ShockAction::Ignore => None,
            ShockAction::Step => Some(shock_pair(self.columns(), self.position())),
        }
    }

    /// The column position after the next call.
    pub open spec fn advanced(self) -> u8 {
        match self.mode() {
            ShockAction::Ignore => self.position(),
            ShockAction::Step => ((self.position() + 1) % (self.columns() as int)) as u8,
        }
    }

    /// Creates a generator for a keyboard of `columns` keys. It starts at the
    /// first column.
    pub fn new(columns: u8, mode: ShockAction) -> (generator: Self)
        requires
            columns == 4 || columns == 8,
        ensures
            generator.position() == 0,
            generator.columns() == columns,
            generator.mode() == mode,
    {
        ShockStepGenerator { last: 0, columns, mode }
    }

    /// The number of keys.
    pub fn num_columns(&self) -> (columns: u8)
        ensures
            columns == self.columns(),
            columns == 4 || columns == 8,
    {
        proof {
            use_type_invariant(self);
        }
        self.columns
    }

    /// Gives the keys for the next shock arrow, or nothing where shocks are
    /// left out.
    pub fn next(&mut self) -> (keys: Option<Vec<u8>>)
        ensures
            final(self).columns() == old(self).columns(),
            final(self).mode() == old(self).mode(),
            final(self).position() == old(self).advanced(),
            match old(self).upcoming() {
                Some(pair) => keys is Some && keys->0@ == pair,
                None => keys is None,
            },
            keys is Some ==> keys->0@.len() == 2 && keys->0@[0] < old(self).columns()
                && keys->0@[1] < old(self).columns(),
    {
        proof {
            use_type_invariant(&*self);
        }
        match self.mode {
            ShockAction::Ignore => None,
            ShockAction::Step => {
                let pair = self.last % (self.columns / 2);
                let first = 4 * (pair / 2);
                let keys = if pair % 2 == 0 {
                    vec![first, first + 3]
                } else {
                    vec![first + 1, first + 2]
                };
                self.last = (self.last + 1) % self.columns;
                assert(keys@ =~= shock_pair(old(self).columns(), old(self).position()));
                Some(keys)
            },
        }
    }
}

/// Whether two positions are less than a thousandth of a beat apart, which is
/// 1.024 units.
pub open spec fn close(a: Beats, b: Beats) -> bool {
    a - b <= 1 && b - a <= 1
}

impl TempoChange {
    /// Whether the segment starts and ends close to `beats`: a segment
    /// without a length, such as a stop, right at that beat.
    pub open spec fn instant_at(self, beats: Beats) -> bool {
        close(beats, self.start_beats) && close(beats, self.end_beats)
    }

    /// The time of `beats`, a position before the end of the segment: the
    /// start time of the segment and the part of its length that lies before
    /// `beats`, in whole milliseconds. It stays at the largest time there is
    /// where the sum is beyond it.
    pub open spec fn time_of(self, beats: Beats) -> int
        recommends
            beats < self.end_beats,
    {
        let passed = if beats <= self.start_beats {
            0
        } else {
            (beats - self.start_beats) * self.length_ms / (self.end_beats - self.start_beats)
        };
        if self.start_ms + passed > u32::MAX {
            u32::MAX as int
        } else {
            self.start_ms + passed
        }
    }

    fn time_at(&self, beats: Beats) -> (time: Time)
        requires
            beats < self.end_beats,
        ensures
            time == self.time_of(beats),
    {
        if beats <= self.start_beats {
            return self.start_ms;
        }
        let passed_beats = (beats - self.start_beats) as u128;
        let length_beats = (self.end_beats - self.start_beats) as u128;
        let length_ms = self.length_ms as u128;
        assert(passed_beats * length_ms <= length_beats * length_ms <= 0x1_0000_0000_0000_0000_0000_0000) by (
            nonlinear_arith)
            requires
                passed_beats <= length_beats <= 0xffff_ffff_ffff_ffff,
                length_ms <= 0xffff_ffff,
        ;
        assert((passed_beats * length_ms) as int / (length_beats as int) <= length_ms) by (nonlinear_arith)
            requires
                passed_beats <= length_beats,
                0 < length_beats,
                0 <= length_ms,
        ;
        let passed = (passed_beats * length_ms / length_beats) as u32;
        self.start_ms.saturating_add(passed)
    }
}

/// The time of `beats` in the tempo map `segments`, going by the first
/// segment from `from` on that is an instant at `beats` or ends after it: the
/// start time of an instant, else the time within the segment. There is none
/// where all segments end at or before `beats`.
pub open spec fn time_from_beats(segments: Seq<TempoChange>, beats: Beats, from: int) -> Option<int>
    recommends
        0 <= from,
    decreases segments.len() - from,
{
    if from >= segments.len() {
        None
    } else if segments[from].instant_at(beats) {
        Some(segments[from].start_ms as int)
    } else if beats < segments[from].end_beats {
        Some(segments[from].time_of(beats))
    } else {
        time_from_beats(segments, beats, from + 1)
    }
}

/// Finds the time in milliseconds of a position in the song.
pub fn get_time_from_beats(beats: Beats, tempo_changes: &TempoChanges) -> (time: Option<Time>)
    ensures
        match time_from_beats(tempo_changes.0@, beats, 0) {
            Some(ms) => time is Some && time->0 == ms,
            None => time is None,
        },
{
    let mut i: usize = 0;
    while i < tempo_changes.0.len()
        invariant
            i <= tempo_changes.0@.len(),
            time_from_beats(tempo_changes.0@, beats, 0) == time_from_beats(tempo_changes.0@, beats, i as int),
        decreases tempo_changes.0@.len() - i,
    {
        let tempo_change = &tempo_changes.0[i];
        if is_close(beats, tempo_change.start_beats) && is_close(beats, tempo_change.end_beats) {
            return Some(tempo_change.start_ms);
        }
        if beats < tempo_change.end_beats {
            return Some(tempo_change.time_at(beats));
        }
        i = i + 1;
    }
    None
}

fn is_close(a: Beats, b: Beats) -> (close_by: bool)
    ensures
        close_by == close(a, b),
{
    if a >= b {
        a - b <= 1
    } else {
        b - a <= 1
    }
}

/// A hit circle on the key `key` of a keyboard of `columns` keys, with
/// nothing set but its time.
pub open spec fn key_circle(key: u8, columns: u8, time: Time) -> HitObjectView {
    HitObjectView::HitCircle(
        HitCircleView {
            x: OsuPixel::mania_column(key, columns),
            y: OsuPixel(192),
            time,
            hit_sound: HitSound { normal: false, whistle: false, finish: false, clap: false },
            new_combo: false,
            skip_combo_colours: 0,
            hit_sample: HitSampleView::none(),
        },
    )
}

/// A hold on the key `key` of a keyboard of `columns` keys, with nothing set
/// but its times.
pub open spec fn key_hold(key: u8, columns: u8, time: Time, end_time: Time) -> HitObjectView {
    HitObjectView::Hold(
        HoldView {
            column: key,
            columns,
            time,
            end_time,
            hit_sound: HitSound { normal: false, whistle: false, finish: false, clap: false },
            new_combo: false,
            skip_combo_colours: 0,
            hit_sample: HitSampleView::none(),
        },
    )
}

/// One hit circle at `time` for each of `keys`.
pub open spec fn key_circles(keys: Seq<u8>, columns: u8, time: Time) -> Seq<HitObjectView> {
    Seq::new(keys.len(), |i: int| key_circle(keys[i], columns, time))
}

/// One hold from `time` to `end_time` for each of `keys`.
pub open spec fn key_holds(keys: Seq<u8>, columns: u8, time: Time, end_time: Time) -> Seq<HitObjectView> {
    Seq::new(keys.len(), |i: int| key_hold(keys[i], columns, time, end_time))
}

/// The indices of the active ones among the first `n` columns, in order.
pub open spec fn active_columns(columns: Seq<bool>, n: int) -> Seq<u8>
    recommends
        n <= columns.len() <= 256,
    decreases n,
{
    if n <= 0 {
        Seq::empty()
    } else if columns[n - 1] {
        active_columns(columns, n - 1).push((n - 1) as u8)
    } else {
        active_columns(columns, n - 1)
    }
}

/// The hit objects as values.
pub open spec fn object_views(objects: Seq<HitObject>) -> Seq<HitObjectView> {
    Seq::new(objects.len(), |i: int| objects[i]@)
}

impl Step {
    /// Whether a keyboard of `num_columns` keys has a key for each arrow of
    /// the step.
    pub open spec fn fits(self, num_columns: u8) -> bool {
        match self {
            Step::Step { row, .. } => 4 * row.players() <= num_columns,
            Step::Freeze { row, .. } => 4 * row.players() <= num_columns,
            Step::Shock { .. } => true,
        }
    }

    /// The hit objects for the step on a keyboard of `num_columns` keys, with
    /// `shock` as the keys for a shock arrow, or nothing where the step has
    /// no time in the tempo map `segments`.
    ///
    /// A plain step is a hit circle on each of its keys, and a freeze a hold
    /// on each of its keys, which needs a time for its start and one for its
    /// end. A shock arrow is a hit circle on each key of `shock`; without
    /// such keys it needs no time.
    pub open spec fn hit_objects(self, num_columns: u8, segments: Seq<TempoChange>, shock: Option<Seq<u8>>) -> Option<
        Seq<HitObjectView>,
    > {
        match self {
            Step::Step { beats, row } => match time_from_beats(segments, beats, 0) {
                Some(time) => Some(
                    key_circles(active_columns(row.columns(), row.columns().len() as int), num_columns, time as u32),
                ),
                None => None,
            },
            Step::Freeze { start, end, row } => match (
                time_from_beats(segments, start, 0),
                time_from_beats(segments, end, 0),
            ) {
                (Some(time), Some(end_time)) => Some(
                    key_holds(
                        active_columns(row.columns(), row.columns().len() as int),
                        num_columns,
                        time as u32,
                        end_time as u32,
                    ),
                ),
                _ => None,
            },
            Step::Shock { beats } => match (shock, time_from_beats(segments, beats, 0)) {
                (None, _) => Some(Seq::empty()),
                (Some(keys), Some(time)) => Some(key_circles(keys, num_columns, time as u32)),
                (Some(keys), None) => if keys.len() == 0 {
                    Some(Seq::empty())
                } else {
                    None
                },
            },
        }
    }

    /// Turns the step into hit objects for a keyboard of `num_columns` keys.
    /// A shock arrow takes its keys from the generator; no other step
    /// touches it.
    pub fn to_hit_objects(
        &self,
        num_columns: u8,
        tempo_changes: &TempoChanges,
        shock_step_generator: &mut ShockStepGenerator,
    ) -> (hit_objects: Option<Vec<HitObject>>)
        requires
            self.fits(num_columns),
            old(shock_step_generator).columns() <= num_columns,
        ensures
            final(shock_step_generator).columns() == old(shock_step_generator).columns(),
            final(shock_step_generator).mode() == old(shock_step_generator).mode(),
            final(shock_step_generator).position() == (if *self is Shock {
                old(shock_step_generator).advanced()
            } else {
                old(shock_step_generator).position()
            }),
            match self.hit_objects(num_columns, tempo_changes.0@, old(shock_step_generator).upcoming()) {
                Some(objects) => hit_objects is Some && object_views(hit_objects->0@) == objects,
                None => hit_objects is None,
            },
    {
        let mut hit_objects: Vec<HitObject> = Vec::new();
        match self {
            Step::Step { beats, row } => {
                let time = match get_time_from_beats(*beats, tempo_changes) {
                    Some(time) => time,
                    None => {
                        return None;
                    },
                };
                let columns = row.to_vec();
                let mut column: usize = 0;
                while column < columns.len()
                    invariant
                        column <= columns@.len() <= num_columns,
                        object_views(hit_objects@) == key_circles(
                            active_columns(columns@, column as int),
                            num_columns,
                            time,
                        ),
                    decreases columns@.len() - column,
                {
                    if columns[column] {
                        let circle = mania_hit_circle(column as u8, num_columns, time);
                        proof {
                            lemma_views_push(hit_objects@, circle);
                            lemma_circles_push(
                                active_columns(columns@, column as int),
                                column as u8,
                                num_columns,
                                time,
                            );
                        }
                        hit_objects.push(circle);
                    }
                    column = column + 1;
                }
            },
            Step::Freeze { start, end, row } => {
                let time = get_time_from_beats(*start, tempo_changes);
                let end_time = get_time_from_beats(*end, tempo_changes);
                let (time, end_time) = match (time, end_time) {
                    (Some(time), Some(end_time)) => (time, end_time),
                    _ => {
                        return None;
                    },
                };
                let columns = row.to_vec();
                let mut column: usize = 0;
                while column < columns.len()
                    invariant
                        column <= columns@.len() <= num_columns,
                        object_views(hit_objects@) == key_holds(
                            active_columns(columns@, column as int),
                            num_columns,
                            time,
                            end_time,
                        ),
                    decreases columns@.len() - column,
                {
                    if columns[column] {
                        let hold = mania_hold(column as u8, num_columns, time, end_time);
                        proof {
                            lemma_views_push(hit_objects@, hold);
                            lemma_holds_push(
                                active_columns(columns@, column as int),
                                column as u8,
                                num_columns,
                                time,
                                end_time,
                            );
                        }
                        hit_objects.push(hold);
                    }
                    column = column + 1;
                }
            },
            Step::Shock { beats } => {
                let keys = match shock_step_generator.next() {
                    Some(keys) => keys,
                    None => Vec::new(),
                };
                if keys.len() > 0 {
                    let time = match get_time_from_beats(*beats, tempo_changes) {
                        Some(time) => time,
                        None => {
                            return None;
                        },
                    };
                    let mut i: usize = 0;
                    while i < keys.len()
                        invariant
                            i <= keys@.len(),
                            forall|k: int| 0 <= k < keys@.len() ==> keys@[k] < num_columns,
                            object_views(hit_objects@) == key_circles(keys@.take(i as int), num_columns, time),
                        decreases keys@.len() - i,
                    {
                        let circle = mania_hit_circle(keys[i], num_columns, time);
                        proof {
                            lemma_views_push(hit_objects@, circle);
                            lemma_circles_push(keys@.take(i as int), keys@[i as int], num_columns, time);
                            assert(keys@.take(i as int).push(keys@[i as int]) =~= keys@.take(i as int + 1));
                        }
                        hit_objects.push(circle);
                        i = i + 1;
                    }
                    assert(keys@.take(keys@.len() as int) =~= keys@);
                }
                assert(object_views(hit_objects@) =~= self.hit_objects(
                    num_columns,
                    tempo_changes.0@,
                    old(shock_step_generator).upcoming(),
                )->0);
            },
        }
        Some(hit_objects)
    }
}

/// How many of the first `n` steps are shock arrows.
pub open spec fn shocks_among(steps: Seq<Step>, n: int) -> int
    recommends
        n <= steps.len(),
    decreases n,
{
    if n <= 0 {
        0
    } else {
        shocks_among(steps, n - 1) + if steps[n - 1] is Shock {
            1int
        } else {
            0int
        }
    }
}

/// The keys for a shock arrow that comes after `shocks` others on a keyboard
/// of `columns` keys.
pub open spec fn shock_keys(action: ShockAction, columns: u8, shocks: int) -> Option<Seq<u8>> {
    match action {
        ShockAction::Ignore => None,
        ShockAction::Step => Some(shock_pair(columns, (shocks % (columns as int)) as u8)),
    }
}

/// The hit objects for the first `n` steps of a chart on a keyboard of
/// `columns` keys, in the order of the steps. A step without a time in the
/// tempo map is left out.
pub open spec fn chart_objects(
    steps: Seq<Step>,
    n: int,
    columns: u8,
    segments: Seq<TempoChange>,
    action: ShockAction,
) -> Seq<HitObjectView>
    recommends
        n <= steps.len(),
    decreases n,
{
    if n <= 0 {
        Seq::empty()
    } else {
        chart_objects(steps, n - 1, columns, segments, action) + match steps[n - 1].hit_objects(
            columns,
            segments,
            shock_keys(action, columns, shocks_among(steps, n - 1)),
        ) {
            Some(objects) => objects,
            None => Seq::empty(),
        }
    }
}

impl TempoChange {
    /// The timing point for the segment: at its start, with four beats to
    /// the measure and beats of the length that they have in the segment. A
    /// stop gets beats of ten seconds.
    pub open spec fn timing_point(self) -> TimingPoint {
        TimingPoint {
            time: self.start_ms,
            beat_length: if self.stop() {
                BeatLength { length_ms: 10000, length_beats: UNITS_PER_BEAT }
            } else {
                BeatLength {
                    length_ms: self.length_ms,
                    length_beats: if self.end_beats >= self.start_beats {
                        (self.end_beats - self.start_beats) as u64
                    } else {
                        0
                    },
                }
            },
            meter: 4,
            sample_set: SampleSet::BeatmapDefault,
            sample_index: 0,
            volume: 100,
            uninherited: true,
            effects: TimingPointEffects { kiai_time: false, omit_first_barline: false },
        }
    }
}

impl From<TempoChange> for TimingPoint {
    fn from(tempo_change: TempoChange) -> (timing_point: Self) {
        TimingPoint {
            time: tempo_change.start_ms,
            beat_length: if tempo_change.is_stop() {
                BeatLength { length_ms: 10000, length_beats: UNITS_PER_BEAT }
            } else {
                BeatLength {
                    length_ms: tempo_change.length_ms,
                    length_beats: if tempo_change.end_beats >= tempo_change.start_beats {
                        tempo_change.end_beats - tempo_change.start_beats
                    } else {
                        0
                    },
                }
            },
            meter: 4,
            sample_set: SampleSet::BeatmapDefault,
            sample_index: 0,
            volume: 100,
            uninherited: true,
            effects: TimingPointEffects { kiai_time: false, omit_first_barline: false },
        }
    }
}

impl vstd::std_specs::convert::FromSpecImpl<TempoChange> for TimingPoint {
    open spec fn obeys_from_spec() -> bool {
        true
    }

    open spec fn from_spec(tempo_change: TempoChange) -> Self {
        tempo_change.timing_point()
    }
}

/// The timing points for the first `n` segments of a tempo map: one for each
/// segment, or for each but the stops, in the order of the map.
pub open spec fn timing_points_among(segments: Seq<TempoChange>, stops: bool, n: int) -> Seq<TimingPoint>
    recommends
        n <= segments.len(),
    decreases n,
{
    if n <= 0 {
        Seq::empty()
    } else if stops || !segments[n - 1].stop() {
        timing_points_among(segments, stops, n - 1).push(segments[n - 1].timing_point())
    } else {
        timing_points_among(segments, stops, n - 1)
    }
}

/// A converted chart as a value.
pub struct ConvertedChartView {
    pub level: Level,
    pub hit_objects: Seq<HitObjectView>,
    pub timing_points: Seq<TimingPoint>,
}

/// A chart with its hit objects and its timing points.
pub struct ConvertedChart {
    pub level: Level,
    pub hit_objects: HitObjects,
    pub timing_points: TimingPoints,
}

impl View for ConvertedChart {
    type V = ConvertedChartView;

    open spec fn view(&self) -> ConvertedChartView {
        ConvertedChartView {
            level: self.level,
            hit_objects: object_views(self.hit_objects.0@),
            timing_points: self.timing_points.0@,
        }
    }
}

impl ConvertedChart {
    /// The name of the chart's difficulty in a beatmap: the name of its
    /// level, with the level as shown to the player where the song's table
    /// of levels is at hand.
    pub open spec fn version_text(self, levels: Option<Seq<u8>>) -> Seq<char> {
        match levels {
            Some(levels) => self.level.text() + " (Lv. "@ + decimal(levels[self.level.table_index()] as nat) + ")"@,
            None => self.level.text(),
        }
    }

    /// Makes the general settings of a beatmap for a keyboard, with the
    /// sound in the file `audio_filename`.
    pub fn general(audio_filename: &str) -> (general: General)
        ensures
            general.audio_filename@ == audio_filename@,
            general.audio_lead_in == 0,
            general.preview_time == -1,
            general.countdown == Countdown::Normal,
            general.sample_set == SampleSet::Soft,
            general.mode == Mode::Mania,
    {
        GeneralBuilder::default().audio_filename(audio_filename).sample_set(SampleSet::Soft).mode(
            Mode::Mania,
        ).build().unwrap()
    }

    /// Makes the metadata of the beatmap of the chart: what is known of the
    /// song, the name of the chart's difficulty, and `creator` as the one
    /// who made the beatmap.
    pub fn metadata(&self, metadata: &ConfigMetadata, creator: &str) -> (section: Metadata)
        requires
            metadata.levels is Some ==> self.level.players >= 1 && self.level.table_index()
                < metadata.levels->0@.len(),
        ensures
            section.title@ == (match metadata.title {
                Some(title) => title@,
                None => "unknown title"@,
            }),
            section.artist@ == (match metadata.artist {
                Some(artist) => artist@,
                None => "unknown artist"@,
            }),
            section.creator@ == creator@,
            section.version@ == self.version_text(
                match metadata.levels {
                    Some(levels) => Some(levels@),
                    None => None,
                },
            ),
            section.source@ == metadata.source@,
            section.tags@ == Seq::<String>::empty(),
    {
        let title = match &metadata.title {
            Some(title) => title.as_str(),
            None => "unknown title",
        };
        let artist = match &metadata.artist {
            Some(artist) => artist.as_str(),
            None => "unknown artist",
        };
        let version = self.version(metadata);
        MetadataBuilder::default().title(title).artist(artist).creator(creator).version(version.as_str()).source(
            metadata.source.as_str(),
        ).build().unwrap()
    }

    /// Writes the name of the chart's difficulty for a beatmap.
    pub fn version(&self, metadata: &ConfigMetadata) -> (text: String)
        requires
            metadata.levels is Some ==> self.level.players >= 1 && self.level.table_index()
                < metadata.levels->0@.len(),
        ensures
            text@ == self.version_text(
                match metadata.levels {
                    Some(levels) => Some(levels@),
                    None => None,
                },
            ),
    {
        let mut text = self.level.to_string();
        match &metadata.levels {
            Some(levels) => {
                let level = self.level.to_value(levels.as_slice());
                text.append(" (Lv. ");
                push_decimal(&mut text, level as u64);
                text.append(")");
            },
            None => {},
        }
        text
    }
}

impl Chart {
    /// What [`Chart::to_converted_chart`] returns.
    pub open spec fn converted(
        self,
        segments: Seq<TempoChange>,
        stops: bool,
        action: ShockAction,
    ) -> ConvertedChartView {
        ConvertedChartView {
            level: self.difficulty,
            hit_objects: chart_objects(
                self.steps@,
                self.steps@.len() as int,
                (4 * self.difficulty.players) as u8,
                segments,
                action,
            ),
            timing_points: timing_points_among(segments, stops, segments.len() as int),
        }
    }

    /// Converts the chart for a keyboard with a key for each of its arrows.
    pub fn to_converted_chart(
        &self,
        tempo_changes: &TempoChanges,
        stops: bool,
        shock_action: ShockAction,
    ) -> (converted: ConvertedChart)
        requires
            self.well_formed(),
        ensures
            converted@ == self.converted(tempo_changes.0@, stops, shock_action),
    {
        let num_columns = self.difficulty.players * 4;
        let mut hit_objects: Vec<HitObject> = Vec::new();
        let mut shock_step_generator = ShockStepGenerator::new(num_columns, shock_action);
        let mut i: usize = 0;
        while i < self.steps.len()
            invariant
                i <= self.steps@.len(),
                self.well_formed(),
                num_columns == 4 * self.difficulty.players,
                shock_step_generator.columns() == num_columns,
                shock_step_generator.mode() == shock_action,
                shock_step_generator.upcoming() == shock_keys(
                    shock_action,
                    num_columns,
                    shocks_among(self.steps@, i as int),
                ),
                shock_action == ShockAction::Step ==> shock_step_generator.position() == shocks_among(
                    self.steps@,
                    i as int,
                ) % (num_columns as int),
                object_views(hit_objects@) == chart_objects(
                    self.steps@,
                    i as int,
                    num_columns,
                    tempo_changes.0@,
                    shock_action,
                ),
            decreases self.steps@.len() - i,
        {
            let ghost before = hit_objects@;
            let ghost shocks = shocks_among(self.steps@, i as int);
            assert(self.steps@[i as int].fits(num_columns));
            assert(shocks >= 0) by {
                lemma_shocks_among(self.steps@, i as int);
            }
            assert((shocks % (num_columns as int) + 1) % (num_columns as int) == (shocks + 1) % (num_columns as int))
                by (nonlinear_arith)
                requires
                    shocks >= 0,
                    num_columns > 0,
            ;
            if let Some(mut step_hit_objects) = self.steps[i].to_hit_objects(
                num_columns,
                tempo_changes,
                &mut shock_step_generator,
            ) {
                let ghost added = step_hit_objects@;
                hit_objects.append(&mut step_hit_objects);
                assert(object_views(before + added) =~= object_views(before) + object_views(added));
            } else {
                assert(object_views(before) + Seq::<HitObjectView>::empty() =~= object_views(before));
            }
            i = i + 1;
        }
        ConvertedChart {
            level: self.difficulty,
            hit_objects: HitObjects(hit_objects),
            timing_points: timing_points(tempo_changes, stops),
        }
    }
}

impl SSQ {
    /// Converts each chart of the file, in the order of the file.
    pub fn to_converted_charts(&self, stops: bool, shock_action: ShockAction) -> (converted: Vec<ConvertedChart>)
        requires
            self.convertible(),
        ensures
            converted@.len() == self.charts@.len(),
            forall|i: int|
                0 <= i < converted@.len() ==> (#[trigger] converted@[i])@ == self.charts@[i].converted(
                    self.tempo_changes.0@,
                    stops,
                    shock_action,
                ),
    {
        let mut converted: Vec<ConvertedChart> = Vec::new();
        let mut i: usize = 0;
        while i < self.charts.len()
            invariant
                i <= self.charts@.len(),
                self.convertible(),
                converted@.len() == i,
                forall|k: int|
                    0 <= k < i ==> (#[trigger] converted@[k])@ == self.charts@[k].converted(
                        self.tempo_changes.0@,
                        stops,
                        shock_action,
                    ),
            decreases self.charts@.len() - i,
        {
            converted.push(self.charts[i].to_converted_chart(&self.tempo_changes, stops, shock_action));
            i = i + 1;
        }
        converted
    }
}

/// Makes the timing points of a tempo map, with or without those for its
/// stops.
pub fn timing_points(tempo_changes: &TempoChanges, stops: bool) -> (timing_points: TimingPoints)
    ensures
        timing_points.0@ == timing_points_among(tempo_changes.0@, stops, tempo_changes.0@.len() as int),
{
    let mut timing_points: Vec<TimingPoint> = Vec::new();
    let mut i: usize = 0;
    while i < tempo_changes.0.len()
        invariant
            i <= tempo_changes.0@.len(),
            timing_points@ == timing_points_among(tempo_changes.0@, stops, i as int),
        decreases tempo_changes.0@.len() - i,
    {
        let entry = tempo_changes.0[i];
        if stops || !entry.is_stop() {
            timing_points.push(TimingPoint::from(entry));
        }
        i = i + 1;
    }
    TimingPoints(timing_points)
}

proof fn lemma_shocks_among(steps: Seq<Step>, n: int)
    ensures
        0 <= shocks_among(steps, n),
    decreases n,
{
    if n > 0 {
        lemma_shocks_among(steps, n - 1);
    }
}

proof fn lemma_views_push(objects: Seq<HitObject>, object: HitObject)
    ensures
        object_views(objects.push(object)) == object_views(objects).push(object@),
{
    assert(object_views(objects.push(object)) =~= object_views(objects).push(object@));
}

proof fn lemma_circles_push(keys: Seq<u8>, key: u8, columns: u8, time: Time)
    ensures
        key_circles(keys.push(key), columns, time) == key_circles(keys, columns, time).push(
            key_circle(key, columns, time),
        ),
{
    assert(key_circles(keys.push(key), columns, time) =~= key_circles(keys, columns, time).push(
        key_circle(key, columns, time),
    ));
}

proof fn lemma_holds_push(keys: Seq<u8>, key: u8, columns: u8, time: Time, end_time: Time)
    ensures
        key_holds(keys.push(key), columns, time, end_time) == key_holds(keys, columns, time, end_time).push(
            key_hold(key, columns, time, end_time),
        ),
{
    assert(key_holds(keys.push(key), columns, time, end_time) =~= key_holds(keys, columns, time, end_time).push(
        key_hold(key, columns, time, end_time),
    ));
}

/// Builds a hit circle on the key `key` at `time`.
fn mania_hit_circle(key: u8, columns: u8, time: Time) -> (object: HitObject)
    requires
        key < columns,
    ensures
        object@ == key_circle(key, columns, time),
{
    HitObject::from(ManiaHitCircleBuilder::default().column(key).columns(columns).time(time).build().unwrap())
}

/// Builds a hold on the key `key` from `time` to `end_time`.
fn mania_hold(key: u8, columns: u8, time: Time, end_time: Time) -> (object: HitObject)
    requires
        key < columns,
    ensures
        object@ == key_hold(key, columns, time, end_time),
{
    HitObject::from(HoldBuilder::default().column(key).columns(columns).time(time).end_time(end_time).build().unwrap())
}

/// In a tempo map without gaps, a segment starts no earlier than the ones
/// before it end.
pub proof fn lemma_segments_in_order(segments: Seq<TempoChange>, i: int, j: int)
    requires
        contiguous(segments),
        0 <= i < j < segments.len(),
    ensures
        segments[i].end_beats <= segments[j].start_beats,
        segments[i].start_ms <= segments[j].start_ms,
    decreases j - i,
{
    if i + 1 < j {
        lemma_segments_in_order(segments, i, j - 1);
        assert(segments[j - 1].end_beats == segments[j].start_beats);
    }
}

/// The time of the beat at which a segment starts is the start time of that
/// segment, unless an earlier segment with another start time is an instant
/// at that beat: that one is found first.
pub proof fn lemma_time_at_segment_start(segments: Seq<TempoChange>, i: int)
    requires
        contiguous(segments),
        0 <= i < segments.len(),
        forall|k: int|
            0 <= k < i && (#[trigger] segments[k]).instant_at(segments[i].start_beats) ==> segments[k].start_ms
                == segments[i].start_ms,
    ensures
        time_from_beats(segments, segments[i].start_beats, 0) == Some(segments[i].start_ms as int),
{
    lemma_time_at_segment_start_from(segments, i, 0);
}

proof fn lemma_time_at_segment_start_from(segments: Seq<TempoChange>, i: int, from: int)
    requires
        contiguous(segments),
        0 <= from <= i < segments.len(),
        forall|k: int|
            0 <= k < i && (#[trigger] segments[k]).instant_at(segments[i].start_beats) ==> segments[k].start_ms
                == segments[i].start_ms,
    ensures
        time_from_beats(segments, segments[i].start_beats, from) == Some(segments[i].start_ms as int),
    decreases i - from,
{
    let beats = segments[i].start_beats;
    if from < i {
        lemma_segments_in_order(segments, from, i);
        if !segments[from].instant_at(beats) {
            lemma_time_at_segment_start_from(segments, i, from + 1);
        }
    } else {
        assert(segments[i].start_beats <= segments[i].end_beats);
    }
}

} // verus!

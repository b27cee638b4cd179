//! The values that the sections of a beatmap are made of.

use crate::utils::{bitarray_to_byte, bits_value, decimal, push_decimal, push_signed_decimal, signed_decimal};
use vstd::prelude::*;
use vstd::string::StringExecFns;

verus! {

/// Stores time in milliseconds.
pub type Time = u32;

/// A time that may be -1 where none is set.
pub type SignedTime = i32;

/// One screen pixel of a playfield of 640 by 480 pixels.
#[derive(Clone, Copy, Debug, PartialEq, Eq, Structural)]
pub struct OsuPixel(pub i16);

impl OsuPixel {
    /// The x position of the middle of `column` on a playfield of `columns`
    /// columns, which is 512 pixels wide.
    pub open spec fn mania_column(column: u8, columns: u8) -> OsuPixel {
        OsuPixel(((512 * column + 256) / (columns as int)) as i16)
    }

    /// Converts a column of a keyboard of `columns` columns to an x position.
    pub fn from_mania_column(column: u8, columns: u8) -> (x: Self)
        requires
            column < columns,
        ensures
            x == OsuPixel::mania_column(column, columns),
            0 <= x.0 < 512,
    {
        let position: i32 = (512 * (column as i32) + 256) / (columns as i32);
        assert(0 <= position < 512) by (nonlinear_arith)
            requires
                position == (512 * column + 256) / (columns as int),
                0 <= column < columns,
        ;
        OsuPixel(position as i16)
    }

    /// Writes the value as the text that a beatmap file has for it.
    pub fn to_string(&self) -> (text: String)
        ensures
            text@ == signed_decimal(self.0 as int),
    {
        let mut text = String::new();
        push_signed_decimal(&mut text, self.0 as i64);
        text
    }
}

impl From<i16> for OsuPixel {
    fn from(value: i16) -> (pixel: Self) {
        OsuPixel(value)
    }
}

impl vstd::std_specs::convert::FromSpecImpl<i16> for OsuPixel {
    open spec fn obeys_from_spec() -> bool {
        true
    }

    open spec fn from_spec(value: i16) -> Self {
        OsuPixel(value)
    }
}

/// The speed of the countdown before the first hit object.
#[derive(Clone, Copy, Debug, PartialEq, Eq, Structural)]
pub enum Countdown {
    No,
    Normal,
    Half,
    Double,
}

impl Countdown {
    /// The number that a beatmap file has for the value.
    pub open spec fn number(self) -> u8 {
        match self {
            Countdown::No => 0,
            Countdown::Normal => 1,
            Countdown::Half => 2,
            Countdown::Double => 3,
        }
    }

    /// The number that a beatmap file has for the value.
    pub fn to_u8(&self) -> (number: u8)
        ensures
            number == self.number(),
    {
        match self {
            Countdown::No => 0,
            Countdown::Normal => 1,
            Countdown::Half => 2,
            Countdown::Double => 3,
        }
    }
}

impl Default for Countdown {
    fn default() -> (countdown: Self)
        ensures
            countdown == Countdown::Normal,
    {
        Countdown::Normal
    }
}

/// The game mode of a beatmap.
#[derive(Clone, Copy, Debug, PartialEq, Eq, Structural)]
pub enum Mode {
    Normal,
    Taiko,
    Catch,
    Mania,
}

impl Mode {
    /// The number that a beatmap file has for the value.
    pub open spec fn number(self) -> u8 {
        match self {
            Mode::Normal => 0,
            Mode::Taiko => 1,
            Mode::Catch => 2,
            Mode::Mania => 3,
        }
    }

    /// The number that a beatmap file has for the value.
    pub fn to_u8(&self) -> (number: u8)
        ensures
            number == self.number(),
    {
        match self {
            Mode::Normal => 0,
            Mode::Taiko => 1,
            Mode::Catch => 2,
            Mode::Mania => 3,
        }
    }
}

impl Default for Mode {
    fn default() -> (mode: Self)
        ensures
            mode == Mode::Normal,
    {
        Mode::Normal
    }
}

/// A set of samples for the hit sounds.
#[derive(Clone, Copy, Debug, PartialEq, Eq, Structural)]
pub enum SampleSet {
    BeatmapDefault,
    Normal,
    Soft,
    Drum,
}

impl SampleSet {
    /// The number that a beatmap file has for the value.
    pub open spec fn number(self) -> u8 {
        match self {
            SampleSet::BeatmapDefault => 0,
            SampleSet::Normal => 1,
            SampleSet::Soft => 2,
            SampleSet::Drum => 3,
        }
    }

    /// The name that a beatmap file has for the value.
    pub open spec fn name(self) -> Seq<char> {
        match self {
            SampleSet::BeatmapDefault => "BeatmapDefault"@,
            SampleSet::Normal => "Normal"@,
            SampleSet::Soft => "Soft"@,
            SampleSet::Drum => "Drum"@,
        }
    }

    /// The number that a beatmap file has for the value.
    pub fn to_u8(&self) -> (number: u8)
        ensures
            number == self.number(),
    {
        match self {
            SampleSet::BeatmapDefault => 0,
            SampleSet::Normal => 1,
            SampleSet::Soft => 2,
            SampleSet::Drum => 3,
        }
    }

    /// The name that a beatmap file has for the value.
    pub fn to_name(&self) -> (name: &'static str)
        ensures
            name@ == self.name(),
    {
        match self {
            SampleSet::BeatmapDefault => "BeatmapDefault",
            SampleSet::Normal => "Normal",
            SampleSet::Soft => "Soft",
            SampleSet::Drum => "Drum",
        }
    }
}

impl Default for SampleSet {
    fn default() -> (sample_set: Self)
        ensures
            sample_set == SampleSet::BeatmapDefault,
    {
        SampleSet::BeatmapDefault
    }
}

/// The sounds played when the object is hit. With none of them set, the
/// normal hit sound is played.
#[derive(Clone, Copy, Debug, PartialEq, Eq, Structural)]
pub struct HitSound {
    pub normal: bool,
    pub whistle: bool,
    pub finish: bool,
    pub clap: bool,
}

impl HitSound {
    /// The sounds as bits: bit 0 for normal, 1 for whistle, 2 for finish and
    /// 3 for clap.
    pub open spec fn number(self) -> int {
        bits_value(seq![self.normal, self.whistle, self.finish, self.clap, false, false, false, false])
    }

    /// Writes the value as the text that a beatmap file has for it.
    pub fn to_string(&self) -> (text: String)
        ensures
            text@ == decimal(self.number() as nat),
    {
        let byte = bitarray_to_byte(
            [self.normal, self.whistle, self.finish, self.clap, false, false, false, false],
        );
        let mut text = String::new();
        push_decimal(&mut text, byte as u64);
        text
    }
}

impl Default for HitSound {
    fn default() -> (hit_sound: Self)
        ensures
            hit_sound == (HitSound { normal: false, whistle: false, finish: false, clap: false }),
    {
        HitSound { normal: false, whistle: false, finish: false, clap: false }
    }
}

/// Builds a [`HitSound`].
pub struct HitSoundBuilder {
    normal: bool,
    whistle: bool,
    finish: bool,
    clap: bool,
}

impl HitSoundBuilder {
    /// The sounds that [`HitSoundBuilder::build`] returns.
    pub closed spec fn sounds(self) -> HitSound {
        HitSound { normal: self.normal, whistle: self.whistle, finish: self.finish, clap: self.clap }
    }

    pub fn normal(self, value: bool) -> (builder: Self)
        ensures
            builder.sounds() == (HitSound { normal: value, ..self.sounds() }),
    {
        HitSoundBuilder { normal: value, ..self }
    }

    pub fn whistle(self, value: bool) -> (builder: Self)
        ensures
            builder.sounds() == (HitSound { whistle: value, ..self.sounds() }),
    {
        HitSoundBuilder { whistle: value, ..self }
    }

    pub fn finish(self, value: bool) -> (builder: Self)
        ensures
            builder.sounds() == (HitSound { finish: value, ..self.sounds() }),
    {
        HitSoundBuilder { finish: value, ..self }
    }

    pub fn clap(self, value: bool) -> (builder: Self)
        ensures
            builder.sounds() == (HitSound { clap: value, ..self.sounds() }),
    {
        HitSoundBuilder { clap: value, ..self }
    }

    pub fn build(&self) -> (hit_sound: Result<HitSound, String>)
        ensures
            hit_sound is Ok,
            hit_sound->Ok_0 == self.sounds(),
    {
        Ok(HitSound { normal: self.normal, whistle: self.whistle, finish: self.finish, clap: self.clap })
    }
}

impl Default for HitSoundBuilder {
    fn default() -> (builder: Self)
        ensures
            builder.sounds() == (HitSound { normal: false, whistle: false, finish: false, clap: false }),
    {
        HitSoundBuilder { normal: false, whistle: false, finish: false, clap: false }
    }
}

/// The sample played when the object is hit, as a value.
pub struct HitSampleView {
    pub normal_set: SampleSet,
    pub addition_set: SampleSet,
    pub index: u32,
    pub volume: u8,
    pub filename: Seq<char>,
}

impl HitSampleView {
    /// The five fields with a colon after each of the first four.
    pub open spec fn text(self) -> Seq<char> {
        decimal(self.normal_set.number() as nat) + seq![':'] + decimal(self.addition_set.number() as nat) + seq![':']
            + decimal(self.index as nat) + seq![':'] + decimal(self.volume as nat) + seq![':'] + self.filename
    }

    /// The sample of an object that has none of its own.
    pub open spec fn none() -> HitSampleView {
        HitSampleView {
            normal_set: SampleSet::BeatmapDefault,
            addition_set: SampleSet::BeatmapDefault,
            index: 0,
            volume: 0,
            filename: Seq::empty(),
        }
    }
}

/// The sample played when the object is hit.
#[derive(Clone, Debug, PartialEq)]
pub struct HitSample {
    pub normal_set: SampleSet,
    pub addition_set: SampleSet,
    pub index: u32,
    pub volume: u8,
    pub filename: String,
}

impl View for HitSample {
    type V = HitSampleView;

    open spec fn view(&self) -> HitSampleView {
        HitSampleView {
            normal_set: self.normal_set,
            addition_set: self.addition_set,
            index: self.index,
            volume: self.volume,
            filename: self.filename@,
        }
    }
}

impl HitSample {
    /// Writes the value as the text that a beatmap file has for it.
    pub fn to_string(&self) -> (text: String)
        ensures
            text@ == self@.text(),
    {
        let mut text = String::new();
        push_decimal(&mut text, self.normal_set.to_u8() as u64);
        text.append(":");
        push_decimal(&mut text, self.addition_set.to_u8() as u64);
        text.append(":");
        push_decimal(&mut text, self.index as u64);
        text.append(":");
        push_decimal(&mut text, self.volume as u64);
        text.append(":");
        text.append(self.filename.as_str());
        proof {
            reveal_strlit(":");
            assert(":"@ =~= seq![':']);
        }
        text
    }

    /// A copy of the sample.
    pub fn duplicate(&self) -> (copy: Self)
        ensures
            copy@ == self@,
    {
        HitSample {
            normal_set: self.normal_set,
            addition_set: self.addition_set,
            index: self.index,
            volume: self.volume,
            filename: self.filename.clone(),
        }
    }
}

impl Default for HitSample {
    fn default() -> (hit_sample: Self)
        ensures
            hit_sample@ == HitSampleView::none(),
    {
        HitSample {
            normal_set: SampleSet::BeatmapDefault,
            addition_set: SampleSet::BeatmapDefault,
            index: 0,
            volume: 0,
            filename: String::new(),
        }
    }
}

/// Builds a [`HitSample`].
pub struct HitSampleBuilder {
    sample: HitSample,
}

impl HitSampleBuilder {
    /// The sample that [`HitSampleBuilder::build`] returns.
    pub closed spec fn sample(self) -> HitSampleView {
        self.sample@
    }

    pub fn normal_set(self, value: SampleSet) -> (builder: Self)
        ensures
            builder.sample() == (HitSampleView { normal_set: value, ..self.sample() }),
    {
        let mut sample = self.sample;
        sample.normal_set = value;
        HitSampleBuilder { sample }
    }

    pub fn addition_set(self, value: SampleSet) -> (builder: Self)
        ensures
            builder.sample() == (HitSampleView { addition_set: value, ..self.sample() }),
    {
        let mut sample = self.sample;
        sample.addition_set = value;
        HitSampleBuilder { sample }
    }

    pub fn index(self, value: u32) -> (builder: Self)
        ensures
            builder.sample() == (HitSampleView { index: value, ..self.sample() }),
    {
        let mut sample = self.sample;
        sample.index = value;
        HitSampleBuilder { sample }
    }

    pub fn volume(self, value: u8) -> (builder: Self)
        ensures
            builder.sample() == (HitSampleView { volume: value, ..self.sample() }),
    {
        let mut sample = self.sample;
        sample.volume = value;
        HitSampleBuilder { sample }
    }

    pub fn filename(self, value: &str) -> (builder: Self)
        ensures
            builder.sample() == (HitSampleView { filename: value@, ..self.sample() }),
    {
        let mut sample = self.sample;
        sample.filename = String::from_str(value);
        HitSampleBuilder { sample }
    }

    pub fn build(&self) -> (hit_sample: Result<HitSample, String>)
        ensures
            hit_sample is Ok,
            hit_sample->Ok_0@ == self.sample(),
    {
        Ok(self.sample.duplicate())
    }
}

impl Default for HitSampleBuilder {
    fn default() -> (builder: Self)
        ensures
            builder.sample() == HitSampleView::none(),
    {
        HitSampleBuilder { sample: HitSample::default() }
    }
}

/// The kind of curve of a slider.
#[derive(Clone, Copy, Debug, PartialEq, Eq, Structural)]
pub enum CurveType {
    /// Bezier
    B,
    /// Centripetal catmull-rom
    C,
    /// Linear
    L,
    /// Perfect circle
    P,
}

} // verus!

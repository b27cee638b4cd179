//! The description format of a beatmap: sections of text, one after the
//! other.
//!
//! Each section has a builder: its setters take the fields one by one, and
//! `build` checks that none of those without a default is missing.

pub mod hit_object;

use crate::osu::beatmap::hit_object::{missing, missing_field, HitObject};
use crate::osu::types::{Countdown, Mode, OsuPixel, SampleSet, SignedTime, Time};
use crate::utils::{
    bitarray_to_byte, bits_value, decimal, join_display_values, joined, push_decimal, push_signed_decimal,
    signed_decimal,
};
use vstd::prelude::*;
use vstd::string::StringExecFns;

verus! {

/// The section with the general settings.
#[derive(Clone, Debug)]
pub struct General {
    pub audio_filename: String,
    pub audio_lead_in: Time,
    pub preview_time: SignedTime,
    pub countdown: Countdown,
    pub sample_set: SampleSet,
    pub mode: Mode,
}

impl General {
    /// The section as text: its heading and a line for each field.
    pub open spec fn text(&self) -> Seq<char> {
        "[General]\nAudioFilename: "@ + self.audio_filename@ + "\nAudioLeadIn: "@ + decimal(self.audio_lead_in as nat)
            + "\nPreviewTime: "@ + signed_decimal(self.preview_time as int) + "\nCountdown: "@ + decimal(
            self.countdown.number() as nat,
        ) + "\nSampleSet: "@ + self.sample_set.name() + "\nMode: "@ + decimal(self.mode.number() as nat) + "\n"@
    }

    /// Writes the value as the text that a beatmap file has for it.
    pub fn to_string(&self) -> (text: String)
        ensures
            text@ == self.text(),
    {
        let mut text = String::from_str("[General]\nAudioFilename: ");
        text.append(self.audio_filename.as_str());
        text.append("\nAudioLeadIn: ");
        push_decimal(&mut text, self.audio_lead_in as u64);
        text.append("\nPreviewTime: ");
        push_signed_decimal(&mut text, self.preview_time as i64);
        text.append("\nCountdown: ");
        push_decimal(&mut text, self.countdown.to_u8() as u64);
        text.append("\nSampleSet: ");
        text.append(self.sample_set.to_name());
        text.append("\nMode: ");
        push_decimal(&mut text, self.mode.to_u8() as u64);
        text.append("\n");
        text
    }
}

/// Builds a [`General`] section.
pub struct GeneralBuilder {
    pub audio_filename: Option<String>,
    pub audio_lead_in: Time,
    pub preview_time: SignedTime,
    pub countdown: Countdown,
    pub sample_set: SampleSet,
    pub mode: Mode,
}

impl GeneralBuilder {
    pub fn audio_filename(self, value: &str) -> (builder: Self)
        ensures
            builder.audio_filename is Some && builder.audio_filename->0@ == value@,
            builder.audio_lead_in == self.audio_lead_in,
            builder.preview_time == self.preview_time,
            builder.countdown == self.countdown,
            builder.sample_set == self.sample_set,
            builder.mode == self.mode,
    {
        GeneralBuilder { audio_filename: Some(String::from_str(value)), ..self }
    }

    pub fn audio_lead_in(self, value: Time) -> (builder: Self)
        ensures
            builder == (GeneralBuilder { audio_lead_in: value, ..self }),
    {
        GeneralBuilder { audio_lead_in: value, ..self }
    }

    pub fn preview_time(self, value: SignedTime) -> (builder: Self)
        ensures
            builder == (GeneralBuilder { preview_time: value, ..self }),
    {
        GeneralBuilder { preview_time: value, ..self }
    }

    pub fn countdown(self, value: Countdown) -> (builder: Self)
        ensures
            builder == (GeneralBuilder { countdown: value, ..self }),
    {
        GeneralBuilder { countdown: value, ..self }
    }

    pub fn sample_set(self, value: SampleSet) -> (builder: Self)
        ensures
            builder == (GeneralBuilder { sample_set: value, ..self }),
    {
        GeneralBuilder { sample_set: value, ..self }
    }

    pub fn mode(self, value: Mode) -> (builder: Self)
        ensures
            builder == (GeneralBuilder { mode: value, ..self }),
    {
        GeneralBuilder { mode: value, ..self }
    }

    /// The message for the first field that is missing, if one is.
    pub open spec fn incomplete(self) -> Option<Seq<char>> {
        if self.audio_filename is None {
            Some(missing("audio_filename"@))
        } else {
            None
        }
    }

    pub fn build(self) -> (built: Result<General, String>)
        ensures
            match self.incomplete() {
                Some(message) => built is Err && built->Err_0@ == message,
                None => built is Ok
                    && built->Ok_0.audio_filename == self.audio_filename->0
                    && built->Ok_0.audio_lead_in == self.audio_lead_in
                    && built->Ok_0.preview_time == self.preview_time
                    && built->Ok_0.countdown == self.countdown
                    && built->Ok_0.sample_set == self.sample_set
                    && built->Ok_0.mode == self.mode,
            },
    {
        let audio_filename = match self.audio_filename {
            Some(audio_filename) => audio_filename,
            None => {
                return Err(missing_field("audio_filename"));
            },
        };
        Ok(
            General {
                audio_filename,
                audio_lead_in: self.audio_lead_in,
                preview_time: self.preview_time,
                countdown: self.countdown,
                sample_set: self.sample_set,
                mode: self.mode,
            },
        )
    }
}

impl Default for GeneralBuilder {
    fn default() -> (builder: Self)
        ensures
            builder.audio_filename is None,
            builder.audio_lead_in == 0,
            builder.preview_time == -1,
            builder.countdown == Countdown::Normal,
            builder.sample_set == SampleSet::Normal,
            builder.mode == Mode::Normal,
    {
        GeneralBuilder {
            audio_filename: None,
            audio_lead_in: 0,
            preview_time: -1,
            countdown: Countdown::Normal,
            sample_set: SampleSet::Normal,
            mode: Mode::Normal,
        }
    }
}

/// The section with the settings of the editor, of which none is kept.
#[derive(Clone, Copy, Debug, Default)]
pub struct Editor;

impl Editor {
    /// The value as the text that a beatmap file has for it.
    pub open spec fn text(&self) -> Seq<char> {
        "[Editor]\n"@
    }

    /// Writes the value as the text that a beatmap file has for it.
    pub fn to_string(&self) -> (text: String)
        ensures
            text@ == self.text(),
    {
        String::from_str("[Editor]\n")
    }
}

/// The tags as texts.
pub open spec fn tag_views(tags: Seq<String>) -> Seq<Seq<char>> {
    Seq::new(tags.len(), |i: int| tags[i]@)
}

/// The section that says what the beatmap is of.
#[derive(Clone, Debug)]
pub struct Metadata {
    pub title: String,
    pub artist: String,
    pub creator: String,
    pub version: String,
    pub source: String,
    pub tags: Vec<String>,
}

impl Metadata {
    /// The section as text: its heading and a line for each field, the tags
    /// with a space between each two.
    pub open spec fn text(&self) -> Seq<char> {
        "[Metadata]\nTitle:"@ + self.title@ + "\nArtist:"@ + self.artist@ + "\nCreator:"@ + self.creator@
            + "\nVersion:"@ + self.version@ + "\nSource:"@ + self.source@ + "\nTags:"@ + joined(
            tag_views(self.tags@),
            " "@,
        ) + "\n"@
    }

    /// The name of the file for the beatmap in an archive of beatmaps.
    pub open spec fn file_name(&self) -> Seq<char> {
        self.artist@ + " - "@ + self.title@ + " ("@ + self.creator@ + ") ["@ + self.version@ + "].osu"@
    }

    /// Writes the name of the file for the beatmap in an archive of
    /// beatmaps.
    pub fn to_file_name(&self) -> (name: String)
        ensures
            name@ == self.file_name(),
    {
        let mut name = self.artist.clone();
        name.append(" - ");
        name.append(self.title.as_str());
        name.append(" (");
        name.append(self.creator.as_str());
        name.append(") [");
        name.append(self.version.as_str());
        name.append("].osu");
        name
    }

    /// Writes the value as the text that a beatmap file has for it.
    pub fn to_string(&self) -> (text: String)
        ensures
            text@ == self.text(),
    {
        let mut tags: Vec<String> = Vec::new();
        let mut i: usize = 0;
        while i < self.tags.len()
            invariant
                i <= self.tags@.len(),
                tags@.len() == i,
                forall|k: int| 0 <= k < i ==> (#[trigger] tags@[k])@ == self.tags@[k]@,
            decreases self.tags@.len() - i,
        {
            tags.push(self.tags[i].clone());
            i = i + 1;
        }
        assert(Seq::new(tags@.len(), |i: int| tags@[i]@) =~= tag_views(self.tags@));
        let mut text = String::from_str("[Metadata]\nTitle:");
        text.append(self.title.as_str());
        text.append("\nArtist:");
        text.append(self.artist.as_str());
        text.append("\nCreator:");
        text.append(self.creator.as_str());
        text.append("\nVersion:");
        text.append(self.version.as_str());
        text.append("\nSource:");
        text.append(self.source.as_str());
        text.append("\nTags:");
        text.append(join_display_values(tags, " ").as_str());
        text.append("\n");
        text
    }
}

/// Builds a [`Metadata`] section.
pub struct MetadataBuilder {
    pub title: Option<String>,
    pub artist: Option<String>,
    pub creator: String,
    pub version: Option<String>,
    pub source: String,
    pub tags: Vec<String>,
}

impl MetadataBuilder {
    pub fn title(self, value: &str) -> (builder: Self)
        ensures
            builder.title is Some && builder.title->0@ == value@,
            builder.artist == self.artist,
            builder.creator == self.creator,
            builder.version == self.version,
            builder.source == self.source,
            builder.tags == self.tags,
    {
        MetadataBuilder { title: Some(String::from_str(value)), ..self }
    }

    pub fn artist(self, value: &str) -> (builder: Self)
        ensures
            builder.artist is Some && builder.artist->0@ == value@,
            builder.title == self.title,
            builder.creator == self.creator,
            builder.version == self.version,
            builder.source == self.source,
            builder.tags == self.tags,
    {
        MetadataBuilder { artist: Some(String::from_str(value)), ..self }
    }

    pub fn creator(self, value: &str) -> (builder: Self)
        ensures
            builder.creator@ == value@,
            builder.title == self.title,
            builder.artist == self.artist,
            builder.version == self.version,
            builder.source == self.source,
            builder.tags == self.tags,
    {
        MetadataBuilder { creator: String::from_str(value), ..self }
    }

    pub fn version(self, value: &str) -> (builder: Self)
        ensures
            builder.version is Some && builder.version->0@ == value@,
            builder.title == self.title,
            builder.artist == self.artist,
            builder.creator == self.creator,
            builder.source == self.source,
            builder.tags == self.tags,
    {
        MetadataBuilder { version: Some(String::from_str(value)), ..self }
    }

    pub fn source(self, value: &str) -> (builder: Self)
        ensures
            builder.source@ == value@,
            builder.title == self.title,
            builder.artist == self.artist,
            builder.creator == self.creator,
            builder.version == self.version,
            builder.tags == self.tags,
    {
        MetadataBuilder { source: String::from_str(value), ..self }
    }

    pub fn tags(self, value: Vec<String>) -> (builder: Self)
        ensures
            builder == (MetadataBuilder { tags: value, ..self }),
    {
        MetadataBuilder { tags: value, ..self }
    }

    /// The message for the first field that is missing, if one is.
    pub open spec fn incomplete(self) -> Option<Seq<char>> {
        if self.title is None {
            Some(missing("title"@))
        } else if self.artist is None {
            Some(missing("artist"@))
        } else if self.version is None {
            Some(missing("version"@))
        } else {
            None
        }
    }

    pub fn build(self) -> (built: Result<Metadata, String>)
        ensures
            match self.incomplete() {
                Some(message) => built is Err && built->Err_0@ == message,
                None => built is Ok
                    && built->Ok_0.title == self.title->0
                    && built->Ok_0.artist == self.artist->0
                    && built->Ok_0.creator == self.creator
                    && built->Ok_0.version == self.version->0
                    && built->Ok_0.source == self.source
                    && built->Ok_0.tags == self.tags,
            },
    {
        let title = match self.title {
            Some(title) => title,
            None => {
                return Err(missing_field("title"));
            },
        };
        let artist = match self.artist {
            Some(artist) => artist,
            None => {
                return Err(missing_field("artist"));
            },
        };
        let version = match self.version {
            Some(version) => version,
            None => {
                return Err(missing_field("version"));
            },
        };
        Ok(Metadata { title, artist, creator: self.creator, version, source: self.source, tags: self.tags })
    }
}

impl Default for MetadataBuilder {
    fn default() -> (builder: Self)
        ensures
            builder.title is None,
            builder.artist is None,
            builder.creator@ == "brd::osu"@,
            builder.version is None,
            builder.source@ == Seq::<char>::empty(),
            builder.tags@ == Seq::<String>::empty(),
    {
        MetadataBuilder {
            title: None,
            artist: None,
            creator: String::from_str("brd::osu"),
            version: None,
            source: String::new(),
            tags: Vec::new(),
        }
    }
}

/// Something that happens behind the playfield.
#[derive(Clone, Debug, PartialEq)]
pub enum Event {
    Background { filename: String, x_offset: OsuPixel, y_offset: OsuPixel },
    Video { filename: String, start_time: Time, x_offset: OsuPixel, y_offset: OsuPixel },
    Break { start_time: Time, end_time: Time },
}

impl Event {
    /// The line of a beatmap file for the event.
    pub open spec fn text(&self) -> Seq<char> {
        match self {
            Event::Background { filename, x_offset, y_offset } => "0,0,"@ + filename@ + ","@ + signed_decimal(
                x_offset.0 as int,
            ) + ","@ + signed_decimal(y_offset.0 as int),
            Event::Video { filename, start_time, x_offset, y_offset } => "Video,"@ + decimal(*start_time as nat) + ","@
                + filename@ + ","@ + signed_decimal(x_offset.0 as int) + ","@ + signed_decimal(y_offset.0 as int),
            Event::Break { start_time, end_time } => "Break,"@ + decimal(*start_time as nat) + ","@ + decimal(
                *end_time as nat,
            ),
        }
    }

    /// Writes the value as the text that a beatmap file has for it.
    pub fn to_string(&self) -> (text: String)
        ensures
            text@ == self.text(),
    {
        match self {
            Event::Background { filename, x_offset, y_offset } => {
                let mut text = String::from_str("0,0,");
                text.append(filename.as_str());
                text.append(",");
                push_signed_decimal(&mut text, x_offset.0 as i64);
                text.append(",");
                push_signed_decimal(&mut text, y_offset.0 as i64);
                text
            },
            Event::Video { filename, start_time, x_offset, y_offset } => {
                let mut text = String::from_str("Video,");
                push_decimal(&mut text, *start_time as u64);
                text.append(",");
                text.append(filename.as_str());
                text.append(",");
                push_signed_decimal(&mut text, x_offset.0 as i64);
                text.append(",");
                push_signed_decimal(&mut text, y_offset.0 as i64);
                text
            },
            Event::Break { start_time, end_time } => {
                let mut text = String::from_str("Break,");
                push_decimal(&mut text, *start_time as u64);
                text.append(",");
                push_decimal(&mut text, *end_time as u64);
                text
            },
        }
    }
}

/// The lines of a section: the heading, the lines with a line break between
/// each two, and a line break.
pub open spec fn section(heading: Seq<char>, lines: Seq<Seq<char>>) -> Seq<char> {
    heading + joined(lines, "\n"@) + "\n"@
}

/// Writes a section from its heading and its lines.
fn section_text(heading: &str, lines: Vec<String>) -> (text: String)
    ensures
        text@ == section(heading@, Seq::new(lines@.len(), |i: int| lines@[i]@)),
{
    let mut text = String::from_str(heading);
    text.append(join_display_values(lines, "\n").as_str());
    text.append("\n");
    text
}

/// The section of the events.
#[derive(Clone, Debug, Default)]
pub struct Events(pub Vec<Event>);

impl Events {
    /// The value as the text that a beatmap file has for it.
    pub open spec fn text(&self) -> Seq<char> {
        section("[Events]\n"@, Seq::new(self.0@.len(), |i: int| self.0@[i].text()))
    }

    /// Writes the value as the text that a beatmap file has for it.
    pub fn to_string(&self) -> (text: String)
        ensures
            text@ == self.text(),
    {
        let mut lines: Vec<String> = Vec::new();
        let mut i: usize = 0;
        while i < self.0.len()
            invariant
                i <= self.0@.len(),
                lines@.len() == i,
                forall|k: int| 0 <= k < i ==> (#[trigger] lines@[k])@ == self.0@[k].text(),
            decreases self.0@.len() - i,
        {
            lines.push(self.0[i].to_string());
            i = i + 1;
        }
        assert(Seq::new(lines@.len(), |i: int| lines@[i]@) =~= Seq::new(self.0@.len(), |i: int| self.0@[i].text()));
        section_text("[Events]\n", lines)
    }
}

/// The effects of a timing point.
#[derive(Clone, Copy, Debug, Default, PartialEq, Eq, Structural)]
pub struct TimingPointEffects {
    pub kiai_time: bool,
    pub omit_first_barline: bool,
}

impl TimingPointEffects {
    /// The effects as bits: bit 0 for kiai time and bit 3 for a first
    /// barline that is left out.
    pub open spec fn number(self) -> int {
        bits_value(seq![self.kiai_time, false, false, self.omit_first_barline, false, false, false, false])
    }

    /// Writes the value as the text that a beatmap file has for it.
    pub fn to_string(&self) -> (text: String)
        ensures
            text@ == decimal(self.number() as nat),
    {
        let byte = bitarray_to_byte(
            [self.kiai_time, false, false, self.omit_first_barline, false, false, false, false],
        );
        let mut text = String::new();
        push_decimal(&mut text, byte as u64);
        text
    }
}

/// Builds the [`TimingPointEffects`] of a timing point.
pub struct TimingPointEffectsBuilder {
    pub kiai_time: Option<bool>,
    pub omit_first_barline: Option<bool>,
}

impl TimingPointEffectsBuilder {
    pub fn kiai_time(self, value: bool) -> (builder: Self)
        ensures
            builder == (TimingPointEffectsBuilder { kiai_time: Some(value), ..self }),
    {
        TimingPointEffectsBuilder { kiai_time: Some(value), ..self }
    }

    pub fn omit_first_barline(self, value: bool) -> (builder: Self)
        ensures
            builder == (TimingPointEffectsBuilder { omit_first_barline: Some(value), ..self }),
    {
        TimingPointEffectsBuilder { omit_first_barline: Some(value), ..self }
    }

    /// The message for the first field that is missing, if one is.
    pub open spec fn incomplete(self) -> Option<Seq<char>> {
        if self.kiai_time is None {
            Some(missing("kiai_time"@))
        } else if self.omit_first_barline is None {
            Some(missing("omit_first_barline"@))
        } else {
            None
        }
    }

    pub fn build(self) -> (built: Result<TimingPointEffects, String>)
        ensures
            match self.incomplete() {
                Some(message) => built is Err && built->Err_0@ == message,
                None => built is Ok
                    && built->Ok_0.kiai_time == self.kiai_time->0
                    && built->Ok_0.omit_first_barline == self.omit_first_barline->0,
            },
    {
        let kiai_time = match self.kiai_time {
            Some(kiai_time) => kiai_time,
            None => {
                return Err(missing_field("kiai_time"));
            },
        };
        let omit_first_barline = match self.omit_first_barline {
            Some(omit_first_barline) => omit_first_barline,
            None => {
                return Err(missing_field("omit_first_barline"));
            },
        };
        Ok(TimingPointEffects { kiai_time, omit_first_barline })
    }
}

impl Default for TimingPointEffectsBuilder {
    fn default() -> (builder: Self)
        ensures
            builder.kiai_time is None,
            builder.omit_first_barline is None,
    {
        TimingPointEffectsBuilder {
            kiai_time: None,
            omit_first_barline: None,
        }
    }
}

/// The length of the beats of a stretch of a song: `length_ms`
/// milliseconds for `length_beats` beats, which are counted in units of
/// 1/1024 beat. One beat lasts `1024 * length_ms / length_beats`
/// milliseconds.
#[derive(Clone, Copy, Debug, PartialEq, Eq, Structural)]
pub struct BeatLength {
    pub length_ms: u32,
    pub length_beats: u64,
}

/// The text for a flag: `1` where it is set and `0` where it is not.
pub open spec fn flag(set: bool) -> Seq<char> {
    if set {
        "1"@
    } else {
        "0"@
    }
}

/// A point in time from which the beats have a given length.
#[derive(Clone, Copy, Debug, PartialEq, Eq, Structural)]
pub struct TimingPoint {
    pub time: Time,
    pub beat_length: BeatLength,
    pub meter: u8,
    pub sample_set: SampleSet,
    pub sample_index: u32,
    pub volume: u8,
    pub uninherited: bool,
    pub effects: TimingPointEffects,
}

impl TimingPoint {
    /// The line of a beatmap file for the timing point, with `beat_length`
    /// as the text for the length of a beat.
    pub open spec fn text(self, beat_length: Seq<char>) -> Seq<char> {
        decimal(self.time as nat) + ","@ + beat_length + ","@ + decimal(self.meter as nat) + ","@ + decimal(
            self.sample_set.number() as nat,
        ) + ","@ + decimal(self.sample_index as nat) + ","@ + decimal(self.volume as nat) + ","@ + flag(
            self.uninherited,
        ) + ","@ + decimal(self.effects.number() as nat)
    }

    /// Writes the line of the timing point. The length of a beat is a
    /// decimal number, which the caller writes.
    pub fn to_string_with(&self, beat_length: &str) -> (text: String)
        ensures
            text@ == self.text(beat_length@),
    {
        let mut text = String::new();
        push_decimal(&mut text, self.time as u64);
        text.append(",");
        text.append(beat_length);
        text.append(",");
        push_decimal(&mut text, self.meter as u64);
        text.append(",");
        push_decimal(&mut text, self.sample_set.to_u8() as u64);
        text.append(",");
        push_decimal(&mut text, self.sample_index as u64);
        text.append(",");
        push_decimal(&mut text, self.volume as u64);
        text.append(",");
        text.append(if self.uninherited { "1" } else { "0" });
        text.append(",");
        text.append(self.effects.to_string().as_str());
        assert(text@ =~= self.text(beat_length@));
        text
    }
}

/// Builds a [`TimingPoint`].
pub struct TimingPointBuilder {
    pub time: Option<Time>,
    pub beat_length: Option<BeatLength>,
    pub meter: u8,
    pub sample_set: SampleSet,
    pub sample_index: u32,
    pub volume: u8,
    pub uninherited: bool,
    pub effects: TimingPointEffects,
}

impl TimingPointBuilder {
    pub fn time(self, value: Time) -> (builder: Self)
        ensures
            builder == (TimingPointBuilder { time: Some(value), ..self }),
    {
        TimingPointBuilder { time: Some(value), ..self }
    }

    pub fn beat_length(self, value: BeatLength) -> (builder: Self)
        ensures
            builder == (TimingPointBuilder { beat_length: Some(value), ..self }),
    {
        TimingPointBuilder { beat_length: Some(value), ..self }
    }

    pub fn meter(self, value: u8) -> (builder: Self)
        ensures
            builder == (TimingPointBuilder { meter: value, ..self }),
    {
        TimingPointBuilder { meter: value, ..self }
    }

    pub fn sample_set(self, value: SampleSet) -> (builder: Self)
        ensures
            builder == (TimingPointBuilder { sample_set: value, ..self }),
    {
        TimingPointBuilder { sample_set: value, ..self }
    }

    pub fn sample_index(self, value: u32) -> (builder: Self)
        ensures
            builder == (TimingPointBuilder { sample_index: value, ..self }),
    {
        TimingPointBuilder { sample_index: value, ..self }
    }

    pub fn volume(self, value: u8) -> (builder: Self)
        ensures
            builder == (TimingPointBuilder { volume: value, ..self }),
    {
        TimingPointBuilder { volume: value, ..self }
    }

    pub fn uninherited(self, value: bool) -> (builder: Self)
        ensures
            builder == (TimingPointBuilder { uninherited: value, ..self }),
    {
        TimingPointBuilder { uninherited: value, ..self }
    }

    pub fn effects(self, value: TimingPointEffects) -> (builder: Self)
        ensures
            builder == (TimingPointBuilder { effects: value, ..self }),
    {
        TimingPointBuilder { effects: value, ..self }
    }

    /// The message for the first field that is missing, if one is.
    pub open spec fn incomplete(self) -> Option<Seq<char>> {
        if self.time is None {
            Some(missing("time"@))
        } else if self.beat_length is None {
            Some(missing("beat_length"@))
        } else {
            None
        }
    }

    pub fn build(self) -> (built: Result<TimingPoint, String>)
        ensures
            match self.incomplete() {
                Some(message) => built is Err && built->Err_0@ == message,
                None => built is Ok
                    && built->Ok_0.time == self.time->0
                    && built->Ok_0.beat_length == self.beat_length->0
                    && built->Ok_0.meter == self.meter
                    && built->Ok_0.sample_set == self.sample_set
                    && built->Ok_0.sample_index == self.sample_index
                    && built->Ok_0.volume == self.volume
                    && built->Ok_0.uninherited == self.uninherited
                    && built->Ok_0.effects == self.effects,
            },
    {
        let time = match self.time {
            Some(time) => time,
            None => {
                return Err(missing_field("time"));
            },
        };
        let beat_length = match self.beat_length {
            Some(beat_length) => beat_length,
            None => {
                return Err(missing_field("beat_length"));
            },
        };
        Ok(
            TimingPoint {
                time,
                beat_length,
                meter: self.meter,
                sample_set: self.sample_set,
                sample_index: self.sample_index,
                volume: self.volume,
                uninherited: self.uninherited,
                effects: self.effects,
            },
        )
    }
}

impl Default for TimingPointBuilder {
    fn default() -> (builder: Self)
        ensures
            builder.time is None,
            builder.beat_length is None,
            builder.meter == 4,
            builder.sample_set == SampleSet::BeatmapDefault,
            builder.sample_index == 0,
            builder.volume == 100,
            builder.uninherited,
            builder.effects == (TimingPointEffects { kiai_time: false, omit_first_barline: false }),
    {
        TimingPointBuilder {
            time: None,
            beat_length: None,
            meter: 4,
            sample_set: SampleSet::BeatmapDefault,
            sample_index: 0,
            volume: 100,
            uninherited: true,
            effects: TimingPointEffects { kiai_time: false, omit_first_barline: false },
        }
    }
}

/// The section of the timing points.
#[derive(Clone, Debug, Default, PartialEq)]
pub struct TimingPoints(pub Vec<TimingPoint>);

impl TimingPoints {
    /// The section as text, with `beat_lengths` as the texts for the lengths
    /// of a beat.
    pub open spec fn text(&self, beat_lengths: Seq<Seq<char>>) -> Seq<char>
        recommends
            beat_lengths.len() == self.0@.len(),
    {
        section("[TimingPoints]\n"@, Seq::new(self.0@.len(), |i: int| self.0@[i].text(beat_lengths[i])))
    }

    /// Writes the section. The lengths of a beat are decimal numbers, which
    /// the caller writes, one for each timing point.
    pub fn to_string_with(&self, beat_lengths: &Vec<String>) -> (text: String)
        requires
            beat_lengths@.len() == self.0@.len(),
        ensures
            text@ == self.text(Seq::new(beat_lengths@.len(), |i: int| beat_lengths@[i]@)),
    {
        let ghost lengths = Seq::new(beat_lengths@.len(), |i: int| beat_lengths@[i]@);
        let mut lines: Vec<String> = Vec::new();
        let mut i: usize = 0;
        while i < self.0.len()
            invariant
                i <= self.0@.len(),
                beat_lengths@.len() == self.0@.len(),
                lengths == Seq::new(beat_lengths@.len(), |i: int| beat_lengths@[i]@),
                lines@.len() == i,
                forall|k: int| 0 <= k < i ==> (#[trigger] lines@[k])@ == self.0@[k].text(lengths[k]),
            decreases self.0@.len() - i,
        {
            lines.push(self.0[i].to_string_with(beat_lengths[i].as_str()));
            i = i + 1;
        }
        assert(Seq::new(lines@.len(), |i: int| lines@[i]@) =~= Seq::new(
            self.0@.len(),
            |i: int| self.0@[i].text(lengths[i]),
        ));
        section_text("[TimingPoints]\n", lines)
    }
}

/// What a colour is for.
#[derive(Clone, Copy, Debug, PartialEq, Eq, Structural)]
pub enum ColourScope {
    Combo(u16),
    SliderTrackOverride,
    SliderBorder,
}

impl ColourScope {
    /// The value as the text that a beatmap file has for it.
    pub open spec fn text(self) -> Seq<char> {
        match self {
            ColourScope::Combo(i) => "Combo"@ + decimal(i as nat),
            ColourScope::SliderTrackOverride => "SliderTrackOverride"@,
            ColourScope::SliderBorder => "SliderBorder"@,
        }
    }

    /// Writes the value as the text that a beatmap file has for it.
    pub fn to_string(&self) -> (text: String)
        ensures
            text@ == self.text(),
    {
        match self {
            ColourScope::Combo(i) => {
                let mut text = String::from_str("Combo");
                push_decimal(&mut text, *i as u64);
                text
            },
            ColourScope::SliderTrackOverride => String::from_str("SliderTrackOverride"),
            ColourScope::SliderBorder => String::from_str("SliderBorder"),
        }
    }
}

/// A colour as red, green and blue.
#[derive(Clone, Copy, Debug)]
pub struct Colour {
    pub scope: ColourScope,
    pub colour: [u8; 3],
}

impl Colour {
    /// The line of a beatmap file for the colour.
    pub open spec fn text(&self) -> Seq<char> {
        self.scope.text() + " : "@ + decimal(self.colour@[0] as nat) + ","@ + decimal(self.colour@[1] as nat) + ","@
            + decimal(self.colour@[2] as nat)
    }

    /// Writes the value as the text that a beatmap file has for it.
    pub fn to_string(&self) -> (text: String)
        ensures
            text@ == self.text(),
    {
        let mut text = self.scope.to_string();
        text.append(" : ");
        push_decimal(&mut text, self.colour[0] as u64);
        text.append(",");
        push_decimal(&mut text, self.colour[1] as u64);
        text.append(",");
        push_decimal(&mut text, self.colour[2] as u64);
        text
    }
}

/// Builds a [`Colour`].
pub struct ColourBuilder {
    pub scope: Option<ColourScope>,
    pub colour: Option<[u8; 3]>,
}

impl ColourBuilder {
    pub fn scope(self, value: ColourScope) -> (builder: Self)
        ensures
            builder == (ColourBuilder { scope: Some(value), ..self }),
    {
        ColourBuilder { scope: Some(value), ..self }
    }

    pub fn colour(self, value: [u8; 3]) -> (builder: Self)
        ensures
            builder == (ColourBuilder { colour: Some(value), ..self }),
    {
        ColourBuilder { colour: Some(value), ..self }
    }

    /// The message for the first field that is missing, if one is.
    pub open spec fn incomplete(self) -> Option<Seq<char>> {
        if self.scope is None {
            Some(missing("scope"@))
        } else if self.colour is None {
            Some(missing("colour"@))
        } else {
            None
        }
    }

    pub fn build(self) -> (built: Result<Colour, String>)
        ensures
            match self.incomplete() {
                Some(message) => built is Err && built->Err_0@ == message,
                None => built is Ok && built->Ok_0.scope == self.scope->0 && built->Ok_0.colour == self.colour->0,
            },
    {
        let scope = match self.scope {
            Some(scope) => scope,
            None => {
                return Err(missing_field("scope"));
            },
        };
        let colour = match self.colour {
            Some(colour) => colour,
            None => {
                return Err(missing_field("colour"));
            },
        };
        Ok(Colour { scope, colour })
    }
}

impl Default for ColourBuilder {
    fn default() -> (builder: Self)
        ensures
            builder.scope is None,
            builder.colour is None,
    {
        ColourBuilder {
            scope: None,
            colour: None,
        }
    }
}

/// The section of the colours.
#[derive(Clone, Debug, Default)]
pub struct Colours(pub Vec<Colour>);

impl Colours {
    /// The value as the text that a beatmap file has for it.
    pub open spec fn text(&self) -> Seq<char> {
        section("[Colours]\n"@, Seq::new(self.0@.len(), |i: int| self.0@[i].text()))
    }

    /// Writes the value as the text that a beatmap file has for it.
    pub fn to_string(&self) -> (text: String)
        ensures
            text@ == self.text(),
    {
        let mut lines: Vec<String> = Vec::new();
        let mut i: usize = 0;
        while i < self.0.len()
            invariant
                i <= self.0@.len(),
                lines@.len() == i,
                forall|k: int| 0 <= k < i ==> (#[trigger] lines@[k])@ == self.0@[k].text(),
            decreases self.0@.len() - i,
        {
            lines.push(self.0[i].to_string());
            i = i + 1;
        }
        assert(Seq::new(lines@.len(), |i: int| lines@[i]@) =~= Seq::new(self.0@.len(), |i: int| self.0@[i].text()));
        section_text("[Colours]\n", lines)
    }
}

/// The section of the hit objects.
#[derive(Clone, Debug, Default)]
pub struct HitObjects(pub Vec<HitObject>);

impl HitObjects {
    /// The value as the text that a beatmap file has for it.
    pub open spec fn text(&self) -> Seq<char> {
        section("[HitObjects]\n"@, Seq::new(self.0@.len(), |i: int| self.0@[i]@.text()))
    }

    /// Writes the value as the text that a beatmap file has for it.
    pub fn to_string(&self) -> (text: String)
        ensures
            text@ == self.text(),
    {
        let mut lines: Vec<String> = Vec::new();
        let mut i: usize = 0;
        while i < self.0.len()
            invariant
                i <= self.0@.len(),
                lines@.len() == i,
                forall|k: int| 0 <= k < i ==> (#[trigger] lines@[k])@ == self.0@[k]@.text(),
            decreases self.0@.len() - i,
        {
            lines.push(self.0[i].to_string());
            i = i + 1;
        }
        assert(Seq::new(lines@.len(), |i: int| lines@[i]@) =~= Seq::new(self.0@.len(), |i: int| self.0@[i]@.text()));
        section_text("[HitObjects]\n", lines)
    }
}

} // verus!

//! The objects that a player has to hit.
//!
//! Each kind of object has a builder: its setters take the fields one by one,
//! and `build` checks that none of those without a default is missing.

use crate::osu::types::{HitSample, HitSampleView, HitSound, OsuPixel, Time};
use crate::utils::{decimal, push_decimal, push_signed_decimal, signed_decimal};
use vstd::prelude::*;
use vstd::string::StringExecFns;

verus! {

/// The message of a builder for a field that was not set.
pub open spec fn missing(field: Seq<char>) -> Seq<char> {
    "`"@ + field + "` must be initialized"@
}

/// The message of a builder for a column that the keyboard does not have.
pub open spec fn no_such_column() -> Seq<char> {
    "column has to be less than columns"@
}

pub(crate) fn missing_field(field: &str) -> (message: String)
    ensures
        message@ == missing(field@),
{
    let mut message = String::from_str("`");
    message.append(field);
    message.append("` must be initialized");
    message
}

/// The fields of a [`HitCircle`].
pub struct HitCircleView {
    pub x: OsuPixel,
    pub y: OsuPixel,
    pub time: Time,
    pub hit_sound: HitSound,
    pub new_combo: bool,
    pub skip_combo_colours: u8,
    pub hit_sample: HitSampleView,
}

/// A circle to hit at `time`.
#[derive(Clone, Debug, PartialEq)]
pub struct HitCircle {
    x: OsuPixel,
    y: OsuPixel,
    time: Time,
    hit_sound: HitSound,
    new_combo: bool,
    skip_combo_colours: u8,
    hit_sample: HitSample,
}

impl View for HitCircle {
    type V = HitCircleView;

    closed spec fn view(&self) -> HitCircleView {
        HitCircleView {
            x: self.x,
            y: self.y,
            time: self.time,
            hit_sound: self.hit_sound,
            new_combo: self.new_combo,
            skip_combo_colours: self.skip_combo_colours,
            hit_sample: self.hit_sample@,
        }
    }
}

/// Builds a [`HitCircle`].
pub struct HitCircleBuilder {
    pub x: Option<OsuPixel>,
    pub y: Option<OsuPixel>,
    pub time: Option<Time>,
    pub hit_sound: HitSound,
    pub new_combo: bool,
    pub skip_combo_colours: u8,
    pub hit_sample: HitSample,
}

impl HitCircleBuilder {
    pub fn x(self, value: i16) -> (builder: Self)
        ensures
            builder == (HitCircleBuilder { x: Some(OsuPixel(value)), ..self }),
    {
        HitCircleBuilder { x: Some(OsuPixel(value)), ..self }
    }

    pub fn y(self, value: i16) -> (builder: Self)
        ensures
            builder == (HitCircleBuilder { y: Some(OsuPixel(value)), ..self }),
    {
        HitCircleBuilder { y: Some(OsuPixel(value)), ..self }
    }

    pub fn time(self, value: Time) -> (builder: Self)
        ensures
            builder == (HitCircleBuilder { time: Some(value), ..self }),
    {
        HitCircleBuilder { time: Some(value), ..self }
    }

    pub fn hit_sound(self, value: HitSound) -> (builder: Self)
        ensures
            builder == (HitCircleBuilder { hit_sound: value, ..self }),
    {
        HitCircleBuilder { hit_sound: value, ..self }
    }

    pub fn new_combo(self, value: bool) -> (builder: Self)
        ensures
            builder == (HitCircleBuilder { new_combo: value, ..self }),
    {
        HitCircleBuilder { new_combo: value, ..self }
    }

    pub fn skip_combo_colours(self, value: u8) -> (builder: Self)
        ensures
            builder == (HitCircleBuilder { skip_combo_colours: value, ..self }),
    {
        HitCircleBuilder { skip_combo_colours: value, ..self }
    }

    pub fn hit_sample(self, value: HitSample) -> (builder: Self)
        ensures
            builder == (HitCircleBuilder { hit_sample: value, ..self }),
    {
        HitCircleBuilder { hit_sample: value, ..self }
    }

    /// What [`HitCircleBuilder::build`] returns: the object, or the message for
    /// the first field that is missing.
    pub open spec fn built(self) -> Result<HitCircleView, Seq<char>> {
        if self.x is None {
            Err(missing("x"@))
        } else if self.y is None {
            Err(missing("y"@))
        } else if self.time is None {
            Err(missing("time"@))
        } else {
            Ok(
                HitCircleView {
                    x: self.x->0,
                    y: self.y->0,
                    time: self.time->0,
                    hit_sound: self.hit_sound,
                    new_combo: self.new_combo,
                    skip_combo_colours: self.skip_combo_colours,
                    hit_sample: self.hit_sample@,
                },
            )
        }
    }

    pub fn build(self) -> (object: Result<HitCircle, String>)
        ensures
            match self.built() {
                Ok(view) => object is Ok && object->Ok_0@ == view,
                Err(message) => object is Err && object->Err_0@ == message,
            },
    {
        let x = match self.x {
            Some(x) => x,
            None => {
                return Err(missing_field("x"));
            },
        };
        let y = match self.y {
            Some(y) => y,
            None => {
                return Err(missing_field("y"));
            },
        };
        let time = match self.time {
            Some(time) => time,
            None => {
                return Err(missing_field("time"));
            },
        };
        Ok(
            HitCircle {
                x,
                y,
                time,
                hit_sound: self.hit_sound,
                new_combo: self.new_combo,
                skip_combo_colours: self.skip_combo_colours,
                hit_sample: self.hit_sample,
            },
        )
    }
}

impl Default for HitCircleBuilder {
    fn default() -> (builder: Self)
        ensures
            builder.x is None,
            builder.y is None,
            builder.time is None,
            builder.hit_sound == (HitSound { normal: false, whistle: false, finish: false, clap: false }),
            !builder.new_combo,
            builder.skip_combo_colours == 0,
            builder.hit_sample@ == HitSampleView::none(),
    {
        HitCircleBuilder {
            x: None,
            y: None,
            time: None,
            hit_sound: HitSound::default(),
            new_combo: false,
            skip_combo_colours: 0,
            hit_sample: HitSample::default(),
        }
    }
}

/// The fields of a [`Spinner`].
pub struct SpinnerView {
    pub time: Time,
    pub end_time: Time,
    pub hit_sound: HitSound,
    pub new_combo: bool,
    pub skip_combo_colours: u8,
    pub hit_sample: HitSampleView,
}

/// A spinner to spin from `time` to `end_time`.
#[derive(Clone, Debug, PartialEq)]
pub struct Spinner {
    time: Time,
    end_time: Time,
    hit_sound: HitSound,
    new_combo: bool,
    skip_combo_colours: u8,
    hit_sample: HitSample,
}

impl View for Spinner {
    type V = SpinnerView;

    closed spec fn view(&self) -> SpinnerView {
        SpinnerView {
            time: self.time,
            end_time: self.end_time,
            hit_sound: self.hit_sound,
            new_combo: self.new_combo,
            skip_combo_colours: self.skip_combo_colours,
            hit_sample: self.hit_sample@,
        }
    }
}

/// Builds a [`Spinner`].
pub struct SpinnerBuilder {
    pub time: Option<Time>,
    pub end_time: Option<Time>,
    pub hit_sound: HitSound,
    pub new_combo: bool,
    pub skip_combo_colours: u8,
    pub hit_sample: HitSample,
}

impl SpinnerBuilder {
    pub fn time(self, value: Time) -> (builder: Self)
        ensures
            builder == (SpinnerBuilder { time: Some(value), ..self }),
    {
        SpinnerBuilder { time: Some(value), ..self }
    }

    pub fn end_time(self, value: Time) -> (builder: Self)
        ensures
            builder == (SpinnerBuilder { end_time: Some(value), ..self }),
    {
        SpinnerBuilder { end_time: Some(value), ..self }
    }

    pub fn hit_sound(self, value: HitSound) -> (builder: Self)
        ensures
            builder == (SpinnerBuilder { hit_sound: value, ..self }),
    {
        SpinnerBuilder { hit_sound: value, ..self }
    }

    pub fn new_combo(self, value: bool) -> (builder: Self)
        ensures
            builder == (SpinnerBuilder { new_combo: value, ..self }),
    {
        SpinnerBuilder { new_combo: value, ..self }
    }

    pub fn skip_combo_colours(self, value: u8) -> (builder: Self)
        ensures
            builder == (SpinnerBuilder { skip_combo_colours: value, ..self }),
    {
        SpinnerBuilder { skip_combo_colours: value, ..self }
    }

    pub fn hit_sample(self, value: HitSample) -> (builder: Self)
        ensures
            builder == (SpinnerBuilder { hit_sample: value, ..self }),
    {
        SpinnerBuilder { hit_sample: value, ..self }
    }

    /// What [`SpinnerBuilder::build`] returns: the object, or the message for
    /// the first field that is missing.
    pub open spec fn built(self) -> Result<SpinnerView, Seq<char>> {
        if self.time is None {
            Err(missing("time"@))
        } else if self.end_time is None {
            Err(missing("end_time"@))
        } else {
            Ok(
                SpinnerView {
                    time: self.time->0,
                    end_time: self.end_time->0,
                    hit_sound: self.hit_sound,
                    new_combo: self.new_combo,
                    skip_combo_colours: self.skip_combo_colours,
                    hit_sample: self.hit_sample@,
                },
            )
        }
    }

    pub fn build(self) -> (object: Result<Spinner, String>)
        ensures
            match self.built() {
                Ok(view) => object is Ok && object->Ok_0@ == view,
                Err(message) => object is Err && object->Err_0@ == message,
            },
    {
        let time = match self.time {
            Some(time) => time,
            None => {
                return Err(missing_field("time"));
            },
        };
        let end_time = match self.end_time {
            Some(end_time) => end_time,
            None => {
                return Err(missing_field("end_time"));
            },
        };
        Ok(
            Spinner {
                time,
                end_time,
                hit_sound: self.hit_sound,
                new_combo: self.new_combo,
                skip_combo_colours: self.skip_combo_colours,
                hit_sample: self.hit_sample,
            },
        )
    }
}

impl Default for SpinnerBuilder {
    fn default() -> (builder: Self)
        ensures
            builder.time is None,
            builder.end_time is None,
            builder.hit_sound == (HitSound { normal: false, whistle: false, finish: false, clap: false }),
            !builder.new_combo,
            builder.skip_combo_colours == 0,
            builder.hit_sample@ == HitSampleView::none(),
    {
        SpinnerBuilder {
            time: None,
            end_time: None,
            hit_sound: HitSound::default(),
            new_combo: false,
            skip_combo_colours: 0,
            hit_sample: HitSample::default(),
        }
    }
}

/// The fields of a [`Hold`].
pub struct HoldView {
    pub column: u8,
    pub columns: u8,
    pub time: Time,
    pub end_time: Time,
    pub hit_sound: HitSound,
    pub new_combo: bool,
    pub skip_combo_colours: u8,
    pub hit_sample: HitSampleView,
}

/// A key of a keyboard of `columns` keys to hold down from `time` to `end_time`.
#[derive(Debug, PartialEq)]
pub struct Hold {
    column: u8,
    columns: u8,
    time: Time,
    end_time: Time,
    hit_sound: HitSound,
    new_combo: bool,
    skip_combo_colours: u8,
    hit_sample: HitSample,
}

impl View for Hold {
    type V = HoldView;

    closed spec fn view(&self) -> HoldView {
        HoldView {
            column: self.column,
            columns: self.columns,
            time: self.time,
            end_time: self.end_time,
            hit_sound: self.hit_sound,
            new_combo: self.new_combo,
            skip_combo_colours: self.skip_combo_colours,
            hit_sample: self.hit_sample@,
        }
    }
}

impl Hold {
    #[verifier::type_invariant]
    spec fn column_exists(self) -> bool {
        self.column < self.columns
    }
}

impl Clone for Hold {
    fn clone(&self) -> (copy: Self)
        ensures
            copy@ == self@,
    {
        proof {
            use_type_invariant(self);
        }
        Hold {
            column: self.column,
            columns: self.columns,
            time: self.time,
            end_time: self.end_time,
            hit_sound: self.hit_sound,
            new_combo: self.new_combo,
            skip_combo_colours: self.skip_combo_colours,
            hit_sample: self.hit_sample.duplicate(),
        }
    }
}

/// Builds a [`Hold`].
pub struct HoldBuilder {
    pub column: Option<u8>,
    pub columns: Option<u8>,
    pub time: Option<Time>,
    pub end_time: Option<Time>,
    pub hit_sound: HitSound,
    pub new_combo: bool,
    pub skip_combo_colours: u8,
    pub hit_sample: HitSample,
}

impl HoldBuilder {
    pub fn column(self, value: u8) -> (builder: Self)
        ensures
            builder == (HoldBuilder { column: Some(value), ..self }),
    {
        HoldBuilder { column: Some(value), ..self }
    }

    pub fn columns(self, value: u8) -> (builder: Self)
        ensures
            builder == (HoldBuilder { columns: Some(value), ..self }),
    {
        HoldBuilder { columns: Some(value), ..self }
    }

    pub fn time(self, value: Time) -> (builder: Self)
        ensures
            builder == (HoldBuilder { time: Some(value), ..self }),
    {
        HoldBuilder { time: Some(value), ..self }
    }

    pub fn end_time(self, value: Time) -> (builder: Self)
        ensures
            builder == (HoldBuilder { end_time: Some(value), ..self }),
    {
        HoldBuilder { end_time: Some(value), ..self }
    }

    pub fn hit_sound(self, value: HitSound) -> (builder: Self)
        ensures
            builder == (HoldBuilder { hit_sound: value, ..self }),
    {
        HoldBuilder { hit_sound: value, ..self }
    }

    pub fn new_combo(self, value: bool) -> (builder: Self)
        ensures
            builder == (HoldBuilder { new_combo: value, ..self }),
    {
        HoldBuilder { new_combo: value, ..self }
    }

    pub fn skip_combo_colours(self, value: u8) -> (builder: Self)
        ensures
            builder == (HoldBuilder { skip_combo_colours: value, ..self }),
    {
        HoldBuilder { skip_combo_colours: value, ..self }
    }

    pub fn hit_sample(self, value: HitSample) -> (builder: Self)
        ensures
            builder == (HoldBuilder { hit_sample: value, ..self }),
    {
        HoldBuilder { hit_sample: value, ..self }
    }

    /// What [`HoldBuilder::build`] returns: the object, or the message for
    /// the first field that is missing, or for a column that the keyboard does not
    /// have.
    pub open spec fn built(self) -> Result<HoldView, Seq<char>> {
        if self.column is None {
            Err(missing("column"@))
        } else if self.columns is None {
            Err(missing("columns"@))
        } else if self.time is None {
            Err(missing("time"@))
        } else if self.end_time is None {
            Err(missing("end_time"@))
        } else if self.column->0 >= self.columns->0 {
            Err(no_such_column())
        } else {
            Ok(
                HoldView {
                    column: self.column->0,
                    columns: self.columns->0,
                    time: self.time->0,
                    end_time: self.end_time->0,
                    hit_sound: self.hit_sound,
                    new_combo: self.new_combo,
                    skip_combo_colours: self.skip_combo_colours,
                    hit_sample: self.hit_sample@,
                },
            )
        }
    }

    pub fn build(self) -> (object: Result<Hold, String>)
        ensures
            match self.built() {
                Ok(view) => object is Ok && object->Ok_0@ == view,
                Err(message) => object is Err && object->Err_0@ == message,
            },
    {
        let column = match self.column {
            Some(column) => column,
            None => {
                return Err(missing_field("column"));
            },
        };
        let columns = match self.columns {
            Some(columns) => columns,
            None => {
                return Err(missing_field("columns"));
            },
        };
        let time = match self.time {
            Some(time) => time,
            None => {
                return Err(missing_field("time"));
            },
        };
        let end_time = match self.end_time {
            Some(end_time) => end_time,
            None => {
                return Err(missing_field("end_time"));
            },
        };
        if column >= columns {
            return Err(String::from_str("column has to be less than columns"));
        }
        Ok(
            Hold {
                column,
                columns,
                time,
                end_time,
                hit_sound: self.hit_sound,
                new_combo: self.new_combo,
                skip_combo_colours: self.skip_combo_colours,
                hit_sample: self.hit_sample,
            },
        )
    }
}

impl Default for HoldBuilder {
    fn default() -> (builder: Self)
        ensures
            builder.column is None,
            builder.columns is None,
            builder.time is None,
            builder.end_time is None,
            builder.hit_sound == (HitSound { normal: false, whistle: false, finish: false, clap: false }),
            !builder.new_combo,
            builder.skip_combo_colours == 0,
            builder.hit_sample@ == HitSampleView::none(),
    {
        HoldBuilder {
            column: None,
            columns: None,
            time: None,
            end_time: None,
            hit_sound: HitSound::default(),
            new_combo: false,
            skip_combo_colours: 0,
            hit_sample: HitSample::default(),
        }
    }
}

/// The fields of a [`ManiaHitCircle`].
pub struct ManiaHitCircleView {
    pub column: u8,
    pub columns: u8,
    pub time: Time,
    pub hit_sound: HitSound,
    pub new_combo: bool,
    pub skip_combo_colours: u8,
    pub hit_sample: HitSampleView,
}

/// A key of a keyboard of `columns` keys to hit at `time`: a hit circle in the
/// middle of the key's column, at the height 192.
#[derive(Debug, PartialEq)]
pub struct ManiaHitCircle {
    column: u8,
    columns: u8,
    time: Time,
    hit_sound: HitSound,
    new_combo: bool,
    skip_combo_colours: u8,
    hit_sample: HitSample,
}

impl View for ManiaHitCircle {
    type V = ManiaHitCircleView;

    closed spec fn view(&self) -> ManiaHitCircleView {
        ManiaHitCircleView {
            column: self.column,
            columns: self.columns,
            time: self.time,
            hit_sound: self.hit_sound,
            new_combo: self.new_combo,
            skip_combo_colours: self.skip_combo_colours,
            hit_sample: self.hit_sample@,
        }
    }
}

impl ManiaHitCircle {
    #[verifier::type_invariant]
    spec fn column_exists(self) -> bool {
        self.column < self.columns
    }
}

impl Clone for ManiaHitCircle {
    fn clone(&self) -> (copy: Self)
        ensures
            copy@ == self@,
    {
        proof {
            use_type_invariant(self);
        }
        ManiaHitCircle {
            column: self.column,
            columns: self.columns,
            time: self.time,
            hit_sound: self.hit_sound,
            new_combo: self.new_combo,
            skip_combo_colours: self.skip_combo_colours,
            hit_sample: self.hit_sample.duplicate(),
        }
    }
}

/// Builds a [`ManiaHitCircle`].
pub struct ManiaHitCircleBuilder {
    pub column: Option<u8>,
    pub columns: Option<u8>,
    pub time: Option<Time>,
    pub hit_sound: HitSound,
    pub new_combo: bool,
    pub skip_combo_colours: u8,
    pub hit_sample: HitSample,
}

impl ManiaHitCircleBuilder {
    pub fn column(self, value: u8) -> (builder: Self)
        ensures
            builder == (ManiaHitCircleBuilder { column: Some(value), ..self }),
    {
        ManiaHitCircleBuilder { column: Some(value), ..self }
    }

    pub fn columns(self, value: u8) -> (builder: Self)
        ensures
            builder == (ManiaHitCircleBuilder { columns: Some(value), ..self }),
    {
        ManiaHitCircleBuilder { columns: Some(value), ..self }
    }

    pub fn time(self, value: Time) -> (builder: Self)
        ensures
            builder == (ManiaHitCircleBuilder { time: Some(value), ..self }),
    {
        ManiaHitCircleBuilder { time: Some(value), ..self }
    }

    pub fn hit_sound(self, value: HitSound) -> (builder: Self)
        ensures
            builder == (ManiaHitCircleBuilder { hit_sound: value, ..self }),
    {
        ManiaHitCircleBuilder { hit_sound: value, ..self }
    }

    pub fn new_combo(self, value: bool) -> (builder: Self)
        ensures
            builder == (ManiaHitCircleBuilder { new_combo: value, ..self }),
    {
        ManiaHitCircleBuilder { new_combo: value, ..self }
    }

    pub fn skip_combo_colours(self, value: u8) -> (builder: Self)
        ensures
            builder == (ManiaHitCircleBuilder { skip_combo_colours: value, ..self }),
    {
        ManiaHitCircleBuilder { skip_combo_colours: value, ..self }
    }

    pub fn hit_sample(self, value: HitSample) -> (builder: Self)
        ensures
            builder == (ManiaHitCircleBuilder { hit_sample: value, ..self }),
    {
        ManiaHitCircleBuilder { hit_sample: value, ..self }
    }

    /// What [`ManiaHitCircleBuilder::build`] returns: the object, or the message for
    /// the first field that is missing, or for a column that the keyboard does not
    /// have.
    pub open spec fn built(self) -> Result<ManiaHitCircleView, Seq<char>> {
        if self.column is None {
            Err(missing("column"@))
        } else if self.columns is None {
            Err(missing("columns"@))
        } else if self.time is None {
            Err(missing("time"@))
        } else if self.column->0 >= self.columns->0 {
            Err(no_such_column())
        } else {
            Ok(
                ManiaHitCircleView {
                    column: self.column->0,
                    columns: self.columns->0,
                    time: self.time->0,
                    hit_sound: self.hit_sound,
                    new_combo: self.new_combo,
                    skip_combo_colours: self.skip_combo_colours,
                    hit_sample: self.hit_sample@,
                },
            )
        }
    }

    pub fn build(self) -> (object: Result<ManiaHitCircle, String>)
        ensures
            match self.built() {
                Ok(view) => object is Ok && object->Ok_0@ == view,
                Err(message) => object is Err && object->Err_0@ == message,
            },
    {
        let column = match self.column {
            Some(column) => column,
            None => {
                return Err(missing_field("column"));
            },
        };
        let columns = match self.columns {
            Some(columns) => columns,
            None => {
                return Err(missing_field("columns"));
            },
        };
        let time = match self.time {
            Some(time) => time,
            None => {
                return Err(missing_field("time"));
            },
        };
        if column >= columns {
            return Err(String::from_str("column has to be less than columns"));
        }
        Ok(
            ManiaHitCircle {
                column,
                columns,
                time,
                hit_sound: self.hit_sound,
                new_combo: self.new_combo,
                skip_combo_colours: self.skip_combo_colours,
                hit_sample: self.hit_sample,
            },
        )
    }
}

impl Default for ManiaHitCircleBuilder {
    fn default() -> (builder: Self)
        ensures
            builder.column is None,
            builder.columns is None,
            builder.time is None,
            builder.hit_sound == (HitSound { normal: false, whistle: false, finish: false, clap: false }),
            !builder.new_combo,
            builder.skip_combo_colours == 0,
            builder.hit_sample@ == HitSampleView::none(),
    {
        ManiaHitCircleBuilder {
            column: None,
            columns: None,
            time: None,
            hit_sound: HitSound::default(),
            new_combo: false,
            skip_combo_colours: 0,
            hit_sample: HitSample::default(),
        }
    }
}

/// The fields of a [`HitObject`].
pub enum HitObjectView {
    HitCircle(HitCircleView),
    Spinner(SpinnerView),
    Hold(HoldView),
}

impl HitObjectView {
    /// Whether a new combo starts with the object.
    pub open spec fn new_combo(self) -> bool {
        match self {
            HitObjectView::HitCircle(circle) => circle.new_combo,
            HitObjectView::Spinner(spinner) => spinner.new_combo,
            HitObjectView::Hold(hold) => hold.new_combo,
        }
    }

    /// How many combo colours to skip.
    pub open spec fn skip_combo_colours(self) -> u8 {
        match self {
            HitObjectView::HitCircle(circle) => circle.skip_combo_colours,
            HitObjectView::Spinner(spinner) => spinner.skip_combo_colours,
            HitObjectView::Hold(hold) => hold.skip_combo_colours,
        }
    }

    /// The type of the object as a beatmap file has it: 1 for a hit circle,
    /// 8 for a spinner and 128 for a hold, 2 more where a new combo starts,
    /// and 8 times the number of combo colours to skip, of which only the
    /// lowest three bits count.
    pub open spec fn type_byte(self) -> int {
        (match self {
            HitObjectView::HitCircle(_) => 1int,
            HitObjectView::Spinner(_) => 8int,
            HitObjectView::Hold(_) => 128int,
        }) + (if self.new_combo() {
            2int
        } else {
            0int
        }) + 8 * (self.skip_combo_colours() % 8)
    }

    /// The line of a beatmap file for the object.
    pub open spec fn text(self) -> Seq<char> {
        match self {
            HitObjectView::HitCircle(circle) => signed_decimal(circle.x.0 as int) + ","@ + signed_decimal(
                circle.y.0 as int,
            ) + ","@ + decimal(circle.time as nat) + ","@ + decimal(self.type_byte() as nat) + ","@ + decimal(
                circle.hit_sound.number() as nat,
            ) + ","@ + circle.hit_sample.text(),
            HitObjectView::Spinner(spinner) => "256,192,"@ + decimal(spinner.time as nat) + ","@ + decimal(
                self.type_byte() as nat,
            ) + ","@ + decimal(spinner.hit_sound.number() as nat) + ","@ + decimal(spinner.end_time as nat) + ","@
                + spinner.hit_sample.text(),
            HitObjectView::Hold(hold) => signed_decimal(OsuPixel::mania_column(hold.column, hold.columns).0 as int)
                + ",192,"@ + decimal(hold.time as nat) + ","@ + decimal(self.type_byte() as nat) + ","@ + decimal(
                hold.hit_sound.number() as nat,
            ) + ","@ + decimal(hold.end_time as nat) + ":"@ + hold.hit_sample.text(),
        }
    }
}

/// Every kind of hit object.
#[derive(Clone, Debug, PartialEq)]
pub enum HitObject {
    HitCircle(HitCircle),
    Spinner(Spinner),
    Hold(Hold),
}

impl View for HitObject {
    type V = HitObjectView;

    open spec fn view(&self) -> HitObjectView {
        match self {
            HitObject::HitCircle(circle) => HitObjectView::HitCircle(circle@),
            HitObject::Spinner(spinner) => HitObjectView::Spinner(spinner@),
            HitObject::Hold(hold) => HitObjectView::Hold(hold@),
        }
    }
}

impl HitObject {
    /// Whether a new combo starts with the object.
    pub fn new_combo(&self) -> (new_combo: bool)
        ensures
            new_combo == self@.new_combo(),
    {
        match self {
            HitObject::HitCircle(circle) => circle.new_combo,
            HitObject::Spinner(spinner) => spinner.new_combo,
            HitObject::Hold(hold) => hold.new_combo,
        }
    }

    /// How many combo colours to skip.
    pub fn skip_combo_colours(&self) -> (skip: u8)
        ensures
            skip == self@.skip_combo_colours(),
    {
        match self {
            HitObject::HitCircle(circle) => circle.skip_combo_colours,
            HitObject::Spinner(spinner) => spinner.skip_combo_colours,
            HitObject::Hold(hold) => hold.skip_combo_colours,
        }
    }

    /// Returns the type of the object as a byte.
    pub fn type_byte(&self) -> (byte: u8)
        ensures
            byte == self@.type_byte(),
    {
        let type_bit: u8 = match self {
            HitObject::HitCircle(_) => 0,
            HitObject::Spinner(_) => 3,
            HitObject::Hold(_) => 7,
        };
        let hit_object_type = 1u8 << type_bit;
        let new_combo = if self.new_combo() {
            0b0000_0010u8
        } else {
            0u8
        };
        let skip = self.skip_combo_colours();
        let skip_combo_colours = (skip & 0b0000_0111u8) << 3;
        assert(1u8 << 0u8 == 1 && 1u8 << 3u8 == 8 && 1u8 << 7u8 == 128) by (bit_vector);
        assert((skip & 0b0000_0111u8) << 3 == 8 * (skip % 8)) by (bit_vector);
        hit_object_type + new_combo + skip_combo_colours
    }

    /// Writes the line of a beatmap file for the object.
    pub fn to_string(&self) -> (text: String)
        ensures
            text@ == self@.text(),
    {
        let mut text = String::new();
        let type_byte = self.type_byte();
        match self {
            HitObject::HitCircle(circle) => {
                push_signed_decimal(&mut text, circle.x.0 as i64);
                text.append(",");
                push_signed_decimal(&mut text, circle.y.0 as i64);
                text.append(",");
                push_decimal(&mut text, circle.time as u64);
                text.append(",");
                push_decimal(&mut text, type_byte as u64);
                text.append(",");
                text.append(circle.hit_sound.to_string().as_str());
                text.append(",");
                text.append(circle.hit_sample.to_string().as_str());
                assert(text@ =~= self@.text());
            },
            HitObject::Spinner(spinner) => {
                text.append("256,192,");
                push_decimal(&mut text, spinner.time as u64);
                text.append(",");
                push_decimal(&mut text, type_byte as u64);
                text.append(",");
                text.append(spinner.hit_sound.to_string().as_str());
                text.append(",");
                push_decimal(&mut text, spinner.end_time as u64);
                text.append(",");
                text.append(spinner.hit_sample.to_string().as_str());
                assert(text@ =~= self@.text());
            },
            HitObject::Hold(hold) => {
                proof {
                    use_type_invariant(hold);
                }
                let x = OsuPixel::from_mania_column(hold.column, hold.columns);
                push_signed_decimal(&mut text, x.0 as i64);
                text.append(",192,");
                push_decimal(&mut text, hold.time as u64);
                text.append(",");
                push_decimal(&mut text, type_byte as u64);
                text.append(",");
                text.append(hold.hit_sound.to_string().as_str());
                text.append(",");
                push_decimal(&mut text, hold.end_time as u64);
                text.append(":");
                text.append(hold.hit_sample.to_string().as_str());
                assert(text@ =~= self@.text());
            },
        }
        text
    }
}

impl From<HitCircle> for HitObject {
    fn from(circle: HitCircle) -> (object: Self) {
        HitObject::HitCircle(circle)
    }
}

impl vstd::std_specs::convert::FromSpecImpl<HitCircle> for HitObject {
    open spec fn obeys_from_spec() -> bool {
        true
    }

    open spec fn from_spec(circle: HitCircle) -> Self {
        HitObject::HitCircle(circle)
    }
}

impl From<Spinner> for HitObject {
    fn from(spinner: Spinner) -> (object: Self) {
        HitObject::Spinner(spinner)
    }
}

impl vstd::std_specs::convert::FromSpecImpl<Spinner> for HitObject {
    open spec fn obeys_from_spec() -> bool {
        true
    }

    open spec fn from_spec(spinner: Spinner) -> Self {
        HitObject::Spinner(spinner)
    }
}

impl From<Hold> for HitObject {
    fn from(hold: Hold) -> (object: Self) {
        HitObject::Hold(hold)
    }
}

impl vstd::std_specs::convert::FromSpecImpl<Hold> for HitObject {
    open spec fn obeys_from_spec() -> bool {
        true
    }

    open spec fn from_spec(hold: Hold) -> Self {
        HitObject::Hold(hold)
    }
}

impl ManiaHitCircleView {
    /// The hit circle that the key stands for.
    pub open spec fn circle(self) -> HitCircleView {
        HitCircleView {
            x: OsuPixel::mania_column(self.column, self.columns),
            y: OsuPixel(192),
            time: self.time,
            hit_sound: self.hit_sound,
            new_combo: self.new_combo,
            skip_combo_colours: self.skip_combo_colours,
            hit_sample: self.hit_sample,
        }
    }
}

impl From<ManiaHitCircle> for HitObject {
    fn from(key: ManiaHitCircle) -> (object: Self)
        ensures
            object@ == HitObjectView::HitCircle(key@.circle()),
    {
        proof {
            use_type_invariant(&key);
        }
        HitObject::HitCircle(
            HitCircle {
                x: OsuPixel::from_mania_column(key.column, key.columns),
                y: OsuPixel(192),
                time: key.time,
                hit_sound: key.hit_sound,
                new_combo: key.new_combo,
                skip_combo_colours: key.skip_combo_colours,
                hit_sample: key.hit_sample,
            },
        )
    }
}

impl vstd::std_specs::convert::FromSpecImpl<ManiaHitCircle> for HitObject {
    open spec fn obeys_from_spec() -> bool {
        false
    }

    open spec fn from_spec(key: ManiaHitCircle) -> Self {
        arbitrary()
    }
}

} // verus!

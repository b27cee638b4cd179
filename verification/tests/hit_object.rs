use brd::osu::beatmap::hit_object::{
    HitCircleBuilder, HitObject, HoldBuilder, ManiaHitCircleBuilder, SpinnerBuilder,
};
use brd::osu::types::{HitSampleBuilder, HitSoundBuilder, SampleSet};

#[test]
fn hit_circle() {
    let object: HitObject = HitCircleBuilder::default()
        .x(200)
        .y(400)
        .time(5732)
        .new_combo(true)
        .skip_combo_colours(5)
        .build()
        .unwrap()
        .into();
    assert_eq!(object.to_string(), "200,400,5732,43,0,0:0:0:0:");
}

#[test]
fn spinner() {
    let object: HitObject = SpinnerBuilder::default()
        .time(5000)
        .end_time(10000)
        .new_combo(true)
        .skip_combo_colours(5)
        .build()
        .unwrap()
        .into();
    assert_eq!(object.to_string(), "256,192,5000,50,0,10000,0:0:0:0:")
}

#[test]
fn hold() {
    let object: HitObject = HoldBuilder::default()
        .column(2)
        .columns(4)
        .time(6000)
        .end_time(9000)
        .new_combo(true)
        .skip_combo_colours(5)
        .build()
        .unwrap()
        .into();
    assert_eq!(object.to_string(), "320,192,6000,170,0,9000:0:0:0:0:");
}

#[test]
fn hit_objects_without_a_new_combo() {
    let circle: HitObject = HitCircleBuilder::default()
        .x(200)
        .y(400)
        .time(5000)
        .build()
        .unwrap()
        .into();
    assert_eq!(circle.to_string(), "200,400,5000,1,0,0:0:0:0:");
    assert_eq!(circle.type_byte(), 1);
    let spinner: HitObject = SpinnerBuilder::default()
        .time(5000)
        .end_time(10000)
        .build()
        .unwrap()
        .into();
    assert_eq!(spinner.to_string(), "256,192,5000,8,0,10000,0:0:0:0:");
    let hold: HitObject = HoldBuilder::default()
        .column(2)
        .columns(4)
        .time(5000)
        .end_time(10000)
        .build()
        .unwrap()
        .into();
    assert_eq!(hold.to_string(), "320,192,5000,128,0,10000:0:0:0:0:");
    assert!(!hold.new_combo());
    assert_eq!(hold.skip_combo_colours(), 0);
}

#[test]
fn mania_hit_circle_is_a_hit_circle_on_its_column() {
    let helper: HitObject = ManiaHitCircleBuilder::default()
        .column(1)
        .columns(4)
        .time(7500)
        .build()
        .unwrap()
        .into();
    let manual: HitObject = HitCircleBuilder::default()
        .x(192)
        .y(192)
        .time(7500)
        .build()
        .unwrap()
        .into();
    assert_eq!(helper, manual);
}

#[test]
fn type_byte_counts_three_bits_of_the_colours_to_skip() {
    let object: HitObject = HitCircleBuilder::default()
        .x(0)
        .y(0)
        .time(0)
        .skip_combo_colours(0b1111_1010)
        .build()
        .unwrap()
        .into();
    assert_eq!(object.type_byte(), 1 + (0b010 << 3));
    assert_eq!(object.skip_combo_colours(), 0b1111_1010);
}

#[test]
fn hit_objects_write_their_sound_and_sample() {
    let object: HitObject = HitCircleBuilder::default()
        .x(-3)
        .y(7)
        .time(1)
        .hit_sound(
            HitSoundBuilder::default()
                .whistle(true)
                .clap(true)
                .build()
                .unwrap(),
        )
        .hit_sample(
            HitSampleBuilder::default()
                .normal_set(SampleSet::Soft)
                .volume(80)
                .filename("hit.wav")
                .build()
                .unwrap(),
        )
        .build()
        .unwrap()
        .into();
    assert_eq!(object.to_string(), "-3,7,1,1,10,2:0:0:80:hit.wav");
}

#[test]
fn builders_name_the_first_missing_field() {
    assert_eq!(
        HitCircleBuilder::default().y(1).time(2).build().unwrap_err(),
        "`x` must be initialized"
    );
    assert_eq!(
        HitCircleBuilder::default().x(1).time(2).build().unwrap_err(),
        "`y` must be initialized"
    );
    assert_eq!(
        HitCircleBuilder::default().x(1).y(2).build().unwrap_err(),
        "`time` must be initialized"
    );
    assert_eq!(
        SpinnerBuilder::default().time(1).build().unwrap_err(),
        "`end_time` must be initialized"
    );
    assert_eq!(
        HoldBuilder::default()
            .columns(4)
            .time(1)
            .end_time(2)
            .build()
            .unwrap_err(),
        "`column` must be initialized"
    );
    assert_eq!(
        ManiaHitCircleBuilder::default()
            .column(1)
            .time(2)
            .build()
            .unwrap_err(),
        "`columns` must be initialized"
    );
}

#[test]
fn builders_reject_a_column_beyond_the_keyboard() {
    assert_eq!(
        HoldBuilder::default()
            .column(4)
            .columns(4)
            .time(1)
            .end_time(2)
            .build()
            .unwrap_err(),
        "column has to be less than columns"
    );
    assert_eq!(
        ManiaHitCircleBuilder::default()
            .column(0)
            .columns(0)
            .time(1)
            .build()
            .unwrap_err(),
        "column has to be less than columns"
    );
}

use brd::osu::beatmap::hit_object::HitCircleBuilder;
use brd::osu::beatmap::{
    BeatLength, ColourBuilder, ColourScope, Colours, Editor, Event, Events, GeneralBuilder,
    HitObjects, MetadataBuilder, TimingPointBuilder, TimingPointEffects,
    TimingPointEffectsBuilder, TimingPoints,
};
use brd::osu::types::{
    Countdown, HitSample, HitSampleBuilder, HitSound, HitSoundBuilder, Mode, SampleSet,
};

#[test]
fn general() {
    let general = GeneralBuilder::default()
        .audio_filename("foo.mp3")
        .audio_lead_in(23)
        .preview_time(5000)
        .countdown(Countdown::Double)
        .sample_set(SampleSet::Drum)
        .mode(Mode::Mania)
        .build()
        .unwrap();
    assert_eq!(
        general.to_string(),
        "[General]\n\
        AudioFilename: foo.mp3\n\
        AudioLeadIn: 23\n\
        PreviewTime: 5000\n\
        Countdown: 3\n\
        SampleSet: Drum\n\
        Mode: 3\n",
    )
}

#[test]
fn editor() {
    assert_eq!(Editor.to_string(), "[Editor]\n");
}

#[test]
fn metadata() {
    let metadata = MetadataBuilder::default()
        .title("Song Title")
        .artist("Song Artist")
        .creator("mycoolusername42")
        .version("Super Hard")
        .source("Best Hits Vol. 23")
        .tags(vec![
            "some".to_string(),
            "descriptive".to_string(),
            "tags".to_string(),
        ])
        .build()
        .unwrap();
    assert_eq!(
        metadata.to_string(),
        "[Metadata]\n\
        Title:Song Title\n\
        Artist:Song Artist\n\
        Creator:mycoolusername42\n\
        Version:Super Hard\n\
        Source:Best Hits Vol. 23\n\
        Tags:some descriptive tags\n"
    );
}

#[test]
fn events() {
    let mut events = Events(Vec::new());
    events.0.push(Event::Background {
        filename: "foo.jpg".to_string(),
        x_offset: 42.into(),
        y_offset: 23.into(),
    });
    events.0.push(Event::Video {
        filename: "foo.mp4".to_string(),
        start_time: 500,
        x_offset: 42.into(),
        y_offset: 23.into(),
    });
    events.0.push(Event::Break {
        start_time: 23000,
        end_time: 42000,
    });
    assert_eq!(
        events.to_string(),
        "[Events]\n\
        0,0,foo.jpg,42,23\n\
        Video,500,foo.mp4,42,23\n\
        Break,23000,42000\n"
    )
}

#[test]
fn colours() {
    let mut colours = Colours::default();
    colours.0.push(
        ColourBuilder::default()
            .scope(ColourScope::Combo(42))
            .colour([0, 127, 255])
            .build()
            .unwrap(),
    );
    colours.0.push(
        ColourBuilder::default()
            .scope(ColourScope::SliderTrackOverride)
            .colour([127, 255, 0])
            .build()
            .unwrap(),
    );
    colours.0.push(
        ColourBuilder::default()
            .scope(ColourScope::SliderBorder)
            .colour([255, 0, 127])
            .build()
            .unwrap(),
    );
    assert_eq!(
        colours.to_string(),
        "[Colours]\n\
        Combo42 : 0,127,255\n\
        SliderTrackOverride : 127,255,0\n\
        SliderBorder : 255,0,127\n"
    )
}

#[test]
fn hit_sound() {
    assert_eq!(HitSound::default().to_string(), "0");
    assert_eq!(
        HitSoundBuilder::default()
            .normal(true)
            .build()
            .unwrap()
            .to_string(),
        "1"
    );
    assert_eq!(
        HitSoundBuilder::default()
            .whistle(true)
            .build()
            .unwrap()
            .to_string(),
        "2"
    );
    assert_eq!(
        HitSoundBuilder::default()
            .finish(true)
            .build()
            .unwrap()
            .to_string(),
        "4"
    );
    assert_eq!(
        HitSoundBuilder::default()
            .clap(true)
            .build()
            .unwrap()
            .to_string(),
        "8"
    );
}

#[test]
fn hit_sample() {
    assert_eq!(HitSample::default().to_string(), "0:0:0:0:");
    assert_eq!(
        HitSampleBuilder::default()
            .normal_set(SampleSet::Drum)
            .addition_set(SampleSet::Normal)
            .index(23)
            .volume(42)
            .filename("foo.mp3")
            .build()
            .unwrap()
            .to_string(),
        "3:1:23:42:foo.mp3"
    );
}

#[test]
fn hit_objects() {
    let mut hit_objects: HitObjects = Default::default();
    hit_objects.0.push(
        HitCircleBuilder::default()
            .x(200)
            .y(400)
            .time(5732)
            .build()
            .unwrap()
            .into(),
    );
    hit_objects.0.push(
        HitCircleBuilder::default()
            .x(400)
            .y(500)
            .time(7631)
            .build()
            .unwrap()
            .into(),
    );
    assert_eq!(
        hit_objects.to_string(),
        "[HitObjects]\n\
        200,400,5732,1,0,0:0:0:0:\n\
        400,500,7631,1,0,0:0:0:0:\n"
    );
}

#[test]
fn general_builder_has_defaults_for_all_but_the_audio() {
    let general = GeneralBuilder::default()
        .audio_filename("audio.mp3")
        .build()
        .unwrap();
    assert_eq!(
        general.to_string(),
        "[General]\n\
        AudioFilename: audio.mp3\n\
        AudioLeadIn: 0\n\
        PreviewTime: -1\n\
        Countdown: 1\n\
        SampleSet: Normal\n\
        Mode: 0\n",
    );
    assert_eq!(
        GeneralBuilder::default().mode(Mode::Taiko).build().unwrap_err(),
        "`audio_filename` must be initialized"
    );
}

#[test]
fn metadata_builder_names_the_first_missing_field() {
    assert_eq!(
        MetadataBuilder::default().build().unwrap_err(),
        "`title` must be initialized"
    );
    assert_eq!(
        MetadataBuilder::default()
            .title("t")
            .version("v")
            .build()
            .unwrap_err(),
        "`artist` must be initialized"
    );
    assert_eq!(
        MetadataBuilder::default()
            .title("t")
            .artist("a")
            .build()
            .unwrap_err(),
        "`version` must be initialized"
    );
    let metadata = MetadataBuilder::default()
        .title("My awesome song")
        .artist("Awesome artist")
        .version("Hard")
        .build()
        .unwrap();
    assert_eq!(
        metadata.to_string(),
        "[Metadata]\n\
        Title:My awesome song\n\
        Artist:Awesome artist\n\
        Creator:brd::osu\n\
        Version:Hard\n\
        Source:\n\
        Tags:\n"
    );
}

#[test]
fn empty_sections_keep_an_empty_line() {
    assert_eq!(Events::default().to_string(), "[Events]\n\n");
    assert_eq!(Colours::default().to_string(), "[Colours]\n\n");
    assert_eq!(HitObjects::default().to_string(), "[HitObjects]\n\n");
}

#[test]
fn events_write_negative_offsets() {
    let event = Event::Background {
        filename: "bg.png".to_string(),
        x_offset: (-5).into(),
        y_offset: i16::MIN.into(),
    };
    assert_eq!(event.to_string(), "0,0,bg.png,-5,-32768");
}

#[test]
fn timing_point_effects_are_bits_zero_and_three() {
    let effects = |kiai_time, omit_first_barline| TimingPointEffects {
        kiai_time,
        omit_first_barline,
    };
    assert_eq!(effects(false, false).to_string(), "0");
    assert_eq!(effects(true, false).to_string(), "1");
    assert_eq!(effects(false, true).to_string(), "8");
    assert_eq!(effects(true, true).to_string(), "9");
    assert_eq!(
        TimingPointEffectsBuilder::default()
            .kiai_time(true)
            .omit_first_barline(true)
            .build(),
        Ok(effects(true, true))
    );
    assert_eq!(
        TimingPointEffectsBuilder::default()
            .omit_first_barline(true)
            .build()
            .unwrap_err(),
        "`kiai_time` must be initialized"
    );
    assert_eq!(
        TimingPointEffectsBuilder::default()
            .kiai_time(true)
            .build()
            .unwrap_err(),
        "`omit_first_barline` must be initialized"
    );
}

#[test]
fn colour_builder_needs_both_fields() {
    assert_eq!(
        ColourBuilder::default()
            .colour([1, 2, 3])
            .build()
            .unwrap_err(),
        "`scope` must be initialized"
    );
    assert_eq!(
        ColourBuilder::default()
            .scope(ColourScope::SliderBorder)
            .build()
            .unwrap_err(),
        "`colour` must be initialized"
    );
}

#[test]
fn timing_points_write_the_given_beat_lengths() {
    let third = BeatLength {
        length_ms: 1000,
        length_beats: 3 * 1024,
    };
    let half = BeatLength {
        length_ms: 500,
        length_beats: 1024,
    };
    let mut timing_points = TimingPoints(Vec::new());
    timing_points.0.push(
        TimingPointBuilder::default()
            .time(0)
            .beat_length(third)
            .build()
            .unwrap(),
    );
    timing_points.0.push(
        TimingPointBuilder::default()
            .time(5000)
            .beat_length(half)
            .meter(8)
            .sample_set(SampleSet::Drum)
            .sample_index(1)
            .volume(50)
            .uninherited(false)
            .effects(
                TimingPointEffectsBuilder::default()
                    .kiai_time(true)
                    .omit_first_barline(true)
                    .build()
                    .unwrap(),
            )
            .build()
            .unwrap(),
    );
    assert_eq!(
        timing_points.0[0].to_string_with("333.33334"),
        "0,333.33334,4,0,0,100,1,0"
    );
    let beat_lengths = vec![String::from("333.33334"), String::from("500")];
    assert_eq!(
        timing_points.to_string_with(&beat_lengths),
        "[TimingPoints]\n\
        0,333.33334,4,0,0,100,1,0\n\
        5000,500,8,3,1,50,0,9\n"
    );
}

#[test]
fn timing_point_builder_needs_a_time_and_a_beat_length() {
    let beat_length = BeatLength {
        length_ms: 1,
        length_beats: 1,
    };
    assert_eq!(
        TimingPointBuilder::default()
            .beat_length(beat_length)
            .build()
            .unwrap_err(),
        "`time` must be initialized"
    );
    assert_eq!(
        TimingPointBuilder::default().time(5).build().unwrap_err(),
        "`beat_length` must be initialized"
    );
}

use brd::converter::ddr2osu::{
    get_time_from_beats, timing_points, ConfigMetadata, ConvertedChart, ShockAction,
    ShockStepGenerator,
};
use brd::ddr::ssq::{Chart, Level, Row, Step, TempoChange, TempoChanges, SSQ};
use brd::osu::beatmap::hit_object::HitObject;
use brd::osu::beatmap::{BeatLength, HitObjects, TimingPoint, TimingPointEffects, TimingPoints};
use brd::osu::types::SampleSet;

fn segment(start_ms: u32, start_beats: u64, end_beats: u64, length_ms: u32) -> TempoChange {
    TempoChange {
        start_ms,
        start_beats,
        end_beats,
        length_ms,
    }
}

/// A measure in two seconds, a stop of half a second, half a measure in one
/// second.
fn tempo_map() -> TempoChanges {
    TempoChanges(vec![
        segment(0, 0, 4096, 2000),
        segment(2000, 4096, 4096, 500),
        segment(2500, 4096, 6144, 1000),
    ])
}

#[test]
fn shock_step_generator_takes_the_pairs_in_turn() {
    let mut generator = ShockStepGenerator::new(4, ShockAction::Step);
    assert_eq!(generator.next(), Some(vec![0, 3]));
    assert_eq!(generator.next(), Some(vec![1, 2]));
    assert_eq!(generator.next(), Some(vec![0, 3]));
    assert_eq!(generator.next(), Some(vec![1, 2]));
    assert_eq!(generator.next(), Some(vec![0, 3]));
}

#[test]
fn shock_step_generator_goes_on_to_the_second_player() {
    let mut generator = ShockStepGenerator::new(8, ShockAction::Step);
    assert_eq!(generator.num_columns(), 8);
    let expected = [[0, 3], [1, 2], [4, 7], [5, 6]];
    for round in 0..3 {
        for pair in expected.iter() {
            assert_eq!(generator.next(), Some(pair.to_vec()), "round {}", round);
        }
    }
}

#[test]
fn shock_step_generator_gives_nothing_when_shocks_are_left_out() {
    let mut generator = ShockStepGenerator::new(4, ShockAction::Ignore);
    assert_eq!(generator.next(), None);
    assert_eq!(generator.next(), None);
}

#[test]
fn get_time_from_beats_goes_by_the_part_of_the_segment() {
    let tempo_changes = tempo_map();
    assert_eq!(get_time_from_beats(0, &tempo_changes), Some(0));
    assert_eq!(get_time_from_beats(1024, &tempo_changes), Some(500));
    assert_eq!(get_time_from_beats(1, &tempo_changes), Some(0));
    assert_eq!(get_time_from_beats(3, &tempo_changes), Some(1));
    assert_eq!(get_time_from_beats(4094, &tempo_changes), Some(1999));
    assert_eq!(get_time_from_beats(5120, &tempo_changes), Some(3000));
    assert_eq!(get_time_from_beats(6143, &tempo_changes), Some(3499));
}

#[test]
fn get_time_from_beats_finds_the_stop_at_its_beat() {
    let tempo_changes = tempo_map();
    assert_eq!(get_time_from_beats(4096, &tempo_changes), Some(2000));
    // less than a thousandth of a beat from the stop on either side
    assert_eq!(get_time_from_beats(4097, &tempo_changes), Some(2000));
    assert_eq!(get_time_from_beats(4095, &tempo_changes), Some(1999));
    assert_eq!(get_time_from_beats(4098, &tempo_changes), Some(2500));
}

#[test]
fn get_time_from_beats_has_no_time_after_the_last_segment() {
    let tempo_changes = tempo_map();
    assert_eq!(get_time_from_beats(6144, &tempo_changes), None);
    assert_eq!(get_time_from_beats(u64::MAX, &tempo_changes), None);
    assert_eq!(get_time_from_beats(0, &TempoChanges(vec![])), None);
}

#[test]
fn get_time_from_beats_gives_the_start_time_at_each_boundary() {
    let tempo_changes = TempoChanges(vec![
        segment(0, 0, 1000, 700),
        segment(700, 1000, 3000, 900),
        segment(1600, 3000, 3500, 11),
    ]);
    for tempo_change in tempo_changes.0.iter() {
        assert_eq!(
            get_time_from_beats(tempo_change.start_beats, &tempo_changes),
            Some(tempo_change.start_ms)
        );
    }
}

#[test]
fn get_time_from_beats_stays_at_the_largest_time() {
    let tempo_changes = TempoChanges(vec![segment(u32::MAX - 5, 0, 100, 1000)]);
    assert_eq!(get_time_from_beats(0, &tempo_changes), Some(u32::MAX - 5));
    assert_eq!(get_time_from_beats(50, &tempo_changes), Some(u32::MAX));
    let tempo_changes = TempoChanges(vec![segment(7, 10, u64::MAX, u32::MAX)]);
    assert_eq!(get_time_from_beats(5, &tempo_changes), Some(7));
    assert_eq!(
        get_time_from_beats(u64::MAX - 1, &tempo_changes),
        Some(u32::MAX)
    );
}

fn timing_point(time: u32, length_ms: u32, length_beats: u64) -> TimingPoint {
    TimingPoint {
        time,
        beat_length: BeatLength {
            length_ms,
            length_beats,
        },
        meter: 4,
        sample_set: SampleSet::BeatmapDefault,
        sample_index: 0,
        volume: 100,
        uninherited: true,
        effects: TimingPointEffects {
            kiai_time: false,
            omit_first_barline: false,
        },
    }
}

#[test]
fn timing_point_from_gives_a_stop_beats_of_ten_seconds() {
    assert_eq!(
        TimingPoint::from(segment(0, 0, 4096, 2000)),
        timing_point(0, 2000, 4096)
    );
    assert_eq!(
        TimingPoint::from(segment(2000, 4096, 4096, 500)),
        timing_point(2000, 10000, 1024)
    );
    assert_eq!(
        TimingPoint::from(segment(7, 5, 5, 0)),
        timing_point(7, 0, 0)
    );
    assert_eq!(
        TimingPoint::from(segment(7, 5, 3, 9)),
        timing_point(7, 9, 0)
    );
}

fn lines(objects: &[HitObject]) -> Vec<String> {
    objects.iter().map(|object| object.to_string()).collect()
}

#[test]
fn step_to_hit_objects_makes_a_circle_for_each_arrow() {
    let tempo_changes = tempo_map();
    let mut generator = ShockStepGenerator::new(4, ShockAction::Step);
    let step = Step::Step {
        beats: 1024,
        row: Row::new(0b1010, 1).unwrap(),
    };
    let objects = step
        .to_hit_objects(4, &tempo_changes, &mut generator)
        .unwrap();
    assert_eq!(
        lines(&objects),
        vec!["192,192,500,1,0,0:0:0:0:", "448,192,500,1,0,0:0:0:0:"]
    );
    // the generator was not asked
    assert_eq!(generator.next(), Some(vec![0, 3]));
}

#[test]
fn step_to_hit_objects_makes_a_hold_of_a_freeze() {
    let tempo_changes = tempo_map();
    let mut generator = ShockStepGenerator::new(8, ShockAction::Step);
    let step = Step::Freeze {
        start: 2048,
        end: 5120,
        row: Row::new(0b0100_0000, 2).unwrap(),
    };
    let objects = step
        .to_hit_objects(8, &tempo_changes, &mut generator)
        .unwrap();
    assert_eq!(lines(&objects), vec!["416,192,1000,128,0,3000:0:0:0:0:"]);
}

#[test]
fn step_to_hit_objects_puts_a_shock_on_the_next_pair() {
    let tempo_changes = tempo_map();
    let mut generator = ShockStepGenerator::new(4, ShockAction::Step);
    let step = Step::Shock { beats: 2048 };
    let first = step
        .to_hit_objects(4, &tempo_changes, &mut generator)
        .unwrap();
    assert_eq!(
        lines(&first),
        vec!["64,192,1000,1,0,0:0:0:0:", "448,192,1000,1,0,0:0:0:0:"]
    );
    let second = step
        .to_hit_objects(4, &tempo_changes, &mut generator)
        .unwrap();
    assert_eq!(
        lines(&second),
        vec!["192,192,1000,1,0,0:0:0:0:", "320,192,1000,1,0,0:0:0:0:"]
    );
}

#[test]
fn step_to_hit_objects_leaves_out_what_has_no_time() {
    let tempo_changes = tempo_map();
    let mut generator = ShockStepGenerator::new(4, ShockAction::Step);
    let row = Row::new(0b0001, 1).unwrap();
    let late = Step::Step { beats: 6144, row };
    assert_eq!(late.to_hit_objects(4, &tempo_changes, &mut generator), None);
    let open_end = Step::Freeze {
        start: 0,
        end: 6144,
        row,
    };
    assert_eq!(
        open_end.to_hit_objects(4, &tempo_changes, &mut generator),
        None
    );
    let no_start = Step::Freeze {
        start: 7000,
        end: 100,
        row,
    };
    assert_eq!(
        no_start.to_hit_objects(4, &tempo_changes, &mut generator),
        None
    );
    let shock = Step::Shock { beats: 6144 };
    assert_eq!(
        shock.to_hit_objects(4, &tempo_changes, &mut generator),
        None
    );
    // the shock took its pair all the same
    assert_eq!(generator.next(), Some(vec![1, 2]));
}

#[test]
fn step_to_hit_objects_needs_no_time_for_a_shock_that_is_left_out() {
    let tempo_changes = tempo_map();
    let mut generator = ShockStepGenerator::new(4, ShockAction::Ignore);
    let shock = Step::Shock { beats: 6144 };
    assert_eq!(
        shock.to_hit_objects(4, &tempo_changes, &mut generator),
        Some(vec![])
    );
}

fn small_chart() -> Chart {
    Chart {
        difficulty: Level {
            players: 1,
            difficulty: 3,
        },
        steps: vec![
            Step::Shock { beats: 0 },
            Step::Step {
                beats: 1024,
                row: Row::new(0b0001, 1).unwrap(),
            },
            Step::Step {
                beats: 9999,
                row: Row::new(0b1111, 1).unwrap(),
            },
            Step::Shock { beats: 2048 },
            Step::Freeze {
                start: 4096,
                end: 5120,
                row: Row::new(0b1000, 1).unwrap(),
            },
        ],
    }
}

#[test]
fn chart_to_converted_chart_keeps_the_order_of_the_steps() {
    let tempo_changes = tempo_map();
    let converted = small_chart().to_converted_chart(&tempo_changes, true, ShockAction::Step);
    assert_eq!(
        converted.level,
        Level {
            players: 1,
            difficulty: 3
        }
    );
    assert_eq!(
        lines(&converted.hit_objects.0),
        vec![
            "64,192,0,1,0,0:0:0:0:",
            "448,192,0,1,0,0:0:0:0:",
            "64,192,500,1,0,0:0:0:0:",
            "192,192,1000,1,0,0:0:0:0:",
            "320,192,1000,1,0,0:0:0:0:",
            "448,192,2000,128,0,3000:0:0:0:0:",
        ]
    );
    assert_eq!(
        converted.timing_points,
        TimingPoints(vec![
            timing_point(0, 2000, 4096),
            timing_point(2000, 10000, 1024),
            timing_point(2500, 1000, 2048),
        ])
    );
}

#[test]
fn chart_to_converted_chart_can_leave_out_shocks_and_stops() {
    let tempo_changes = tempo_map();
    let converted = small_chart().to_converted_chart(&tempo_changes, false, ShockAction::Ignore);
    assert_eq!(
        lines(&converted.hit_objects.0),
        vec![
            "64,192,500,1,0,0:0:0:0:",
            "448,192,2000,128,0,3000:0:0:0:0:",
        ]
    );
    assert_eq!(
        converted.timing_points,
        TimingPoints(vec![
            timing_point(0, 2000, 4096),
            timing_point(2500, 1000, 2048),
        ])
    );
}

#[test]
fn timing_points_keeps_segments_that_take_no_time() {
    let tempo_changes = TempoChanges(vec![
        segment(0, 0, 0, 0),
        segment(0, 0, 0, 1),
        segment(1, 0, 5, 0),
    ]);
    assert_eq!(
        timing_points(&tempo_changes, false),
        TimingPoints(vec![timing_point(0, 0, 0), timing_point(1, 0, 5)])
    );
    assert_eq!(
        timing_points(&tempo_changes, true),
        TimingPoints(vec![
            timing_point(0, 0, 0),
            timing_point(0, 10000, 1024),
            timing_point(1, 0, 5)
        ])
    );
}

#[test]
fn ssq_to_converted_charts_starts_each_chart_with_the_first_pair() {
    let double = Chart {
        difficulty: Level {
            players: 2,
            difficulty: 0,
        },
        steps: vec![
            Step::Shock { beats: 0 },
            Step::Shock { beats: 0 },
            Step::Shock { beats: 0 },
            Step::Step {
                beats: 1024,
                row: Row::new(0b1000_0001, 2).unwrap(),
            },
        ],
    };
    let ssq = SSQ {
        tempo_changes: tempo_map(),
        charts: vec![small_chart(), double, small_chart()],
    };
    assert!(ssq.is_convertible());
    let converted = ssq.to_converted_charts(true, ShockAction::Step);
    assert_eq!(converted.len(), 3);
    assert_eq!(
        lines(&converted[1].hit_objects.0),
        vec![
            "32,192,0,1,0,0:0:0:0:",
            "224,192,0,1,0,0:0:0:0:",
            "96,192,0,1,0,0:0:0:0:",
            "160,192,0,1,0,0:0:0:0:",
            "288,192,0,1,0,0:0:0:0:",
            "480,192,0,1,0,0:0:0:0:",
            "32,192,500,1,0,0:0:0:0:",
            "480,192,500,1,0,0:0:0:0:",
        ]
    );
    assert_eq!(
        lines(&converted[0].hit_objects.0),
        lines(&converted[2].hit_objects.0)
    );
    assert_eq!(converted[2].level.players, 1);
}

#[test]
fn converted_chart_version_names_the_level() {
    let converted = ConvertedChart {
        level: Level {
            players: 2,
            difficulty: 3,
        },
        hit_objects: HitObjects(vec![]),
        timing_points: TimingPoints(vec![]),
    };
    let mut metadata = ConfigMetadata {
        title: None,
        artist: None,
        source: String::from("Dance Dance Revolution"),
        levels: None,
    };
    assert_eq!(converted.version(&metadata), "Double Expert");
    metadata.levels = Some(vec![1, 2, 3, 4, 5, 6, 7, 8, 19, 10]);
    assert_eq!(converted.version(&metadata), "Double Expert (Lv. 19)");
}

#[test]
fn converted_chart_general_is_for_a_keyboard() {
    let general = ConvertedChart::general("audio.wav");
    assert_eq!(
        general.to_string(),
        "[General]\n\
        AudioFilename: audio.wav\n\
        AudioLeadIn: 0\n\
        PreviewTime: -1\n\
        Countdown: 1\n\
        SampleSet: Soft\n\
        Mode: 3\n"
    );
}

#[test]
fn converted_chart_metadata_says_what_is_known_of_the_song() {
    let converted = ConvertedChart {
        level: Level {
            players: 1,
            difficulty: 0,
        },
        hit_objects: HitObjects(vec![]),
        timing_points: TimingPoints(vec![]),
    };
    let mut metadata = ConfigMetadata {
        title: None,
        artist: None,
        source: String::from("Dance Dance Revolution"),
        levels: None,
    };
    assert_eq!(
        converted.metadata(&metadata, "me").to_string(),
        "[Metadata]\n\
        Title:unknown title\n\
        Artist:unknown artist\n\
        Creator:me\n\
        Version:Single Beginner\n\
        Source:Dance Dance Revolution\n\
        Tags:\n"
    );
    metadata.title = Some(String::from("A Song"));
    metadata.artist = Some(String::from("Somebody"));
    metadata.levels = Some(vec![3, 5, 8, 11, 0, 4, 6, 9, 12, 0]);
    let section = converted.metadata(&metadata, "me");
    assert_eq!(
        section.to_string(),
        "[Metadata]\n\
        Title:A Song\n\
        Artist:Somebody\n\
        Creator:me\n\
        Version:Single Beginner (Lv. 3)\n\
        Source:Dance Dance Revolution\n\
        Tags:\n"
    );
    assert_eq!(
        section.to_file_name(),
        "Somebody - A Song (me) [Single Beginner (Lv. 3)].osu"
    );
}

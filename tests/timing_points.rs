use osu_beatmap::error::MapTypeError;
use osu_beatmap::number::Decimal;
use osu_beatmap::section::timing_points::TimingPoint;
use osu_beatmap::section::CommaListOf;
use osu_beatmap::types::timing_points::Effects;
use osu_beatmap::types::SampleSet;

const TEST_SECTION: &str = "10000,333.33,4,0,0,100,1,1
12000,-25,4,3,0,100,0,1
";

const TEST_TIMING_POINT: &str = "10000,333.33,4,0,0,100,1,1";

fn float(d: &Decimal) -> f32 {
    d.to_string().parse().unwrap()
}

fn dec(s: &str) -> Decimal {
    Decimal::from_str(s).unwrap()
}

#[test]
fn parse_timing_points() {
    let timing_points: CommaListOf<TimingPoint> = CommaListOf::parse(TEST_SECTION).unwrap();

    assert_eq!(timing_points.len(), 2);

    assert_eq!(timing_points.0[0].time, 10000);
    assert_eq!(float(&timing_points.0[0].beat_length), 333.33);
    assert_eq!(timing_points.0[0].meter, 4);
    assert_eq!(timing_points.0[0].sample_set, SampleSet::Default);
    assert_eq!(timing_points.0[0].sample_index, 0);
    assert_eq!(timing_points.0[0].volume, 100);
    assert_eq!(timing_points.0[0].is_uninherited, true.into());
    assert_eq!(timing_points.0[0].effects, Effects::kiai());

    assert_eq!(timing_points.0[1].time, 12000);
    assert_eq!(float(&timing_points.0[1].beat_length), -25.0);
    assert_eq!(timing_points.0[1].meter, 4);
    assert_eq!(timing_points.0[1].sample_set, SampleSet::Drum);
    assert_eq!(timing_points.0[1].sample_index, 0);
    assert_eq!(timing_points.0[1].volume, 100);
    assert_eq!(timing_points.0[1].is_uninherited, false.into());
    assert_eq!(timing_points.0[1].effects, Effects::kiai());
}

#[test]
fn serialize_timing_points() {
    let mut timing_points: CommaListOf<TimingPoint> = CommaListOf::new();
    timing_points.push(TimingPoint {
        time: 10000,
        beat_length: dec("333.33"),
        meter: 4,
        sample_set: SampleSet::Default,
        sample_index: 0,
        volume: 100,
        is_uninherited: true.into(),
        effects: Effects::kiai(),
    });
    timing_points.push(TimingPoint {
        time: 12000,
        beat_length: dec("-25.0"),
        meter: 4,
        sample_set: SampleSet::Drum,
        sample_index: 0,
        volume: 100,
        is_uninherited: false.into(),
        effects: Effects::kiai(),
    });

    assert_eq!(timing_points.serialize(), TEST_SECTION)
}

#[test]
fn parse_timing_point() {
    let timing_point = TimingPoint::parse(TEST_TIMING_POINT).unwrap();

    assert_eq!(timing_point.time, 10000);
    assert_eq!(float(&timing_point.beat_length), 333.33);
    assert_eq!(timing_point.meter, 4);
    assert_eq!(timing_point.sample_set, SampleSet::Default);
    assert_eq!(timing_point.sample_index, 0);
    assert_eq!(timing_point.volume, 100);
    assert_eq!(timing_point.is_uninherited, true.into());
    assert_eq!(timing_point.effects, Effects::kiai());
}

#[test]
fn serialize_timing_point() {
    let timing_point = TimingPoint {
        time: 10000,
        beat_length: dec("333.33"),
        meter: 4,
        sample_set: SampleSet::Default,
        sample_index: 0,
        volume: 100,
        is_uninherited: true.into(),
        effects: Effects::kiai(),
    };

    assert_eq!(timing_point.serialize(), TEST_TIMING_POINT)
}

#[test]
fn effects_keep_only_known_bits() {
    let timing_point = TimingPoint::parse("0,1,4,0,0,100,1,255").unwrap();
    assert_eq!(timing_point.effects.bits(), 5);
    assert!(timing_point.effects.contains(Effects::omit_barline()));
    assert_eq!(Effects::from_bits_truncate(2).bits(), 0);
}

#[test]
fn sample_set_format_and_value_errors_differ() {
    assert_eq!(SampleSet::from_str("2"), Ok(SampleSet::Soft));
    assert_eq!(
        SampleSet::from_str("abc"),
        Err(MapTypeError::UnexpectedSampleSetFormat)
    );
    assert_eq!(
        SampleSet::from_str("7"),
        Err(MapTypeError::UnexpectedSampleSetValue { value: 7 })
    );
    assert_eq!(SampleSet::Drum.to_string(), "3");
}

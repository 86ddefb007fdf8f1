use osu_beatmap::error::BeatmapParseError;
use osu_beatmap::number::Decimal;
use osu_beatmap::section::hit_objects::{
    EdgeSounds, HitObject, HitObjectType, HitSample, HitSoundFlag, ManiaHoldParams, SliderParams,
    SliderPoint, SliderType, SpinnerParams,
};
use osu_beatmap::section::CommaListOf;
use osu_beatmap::types::SampleSet;

const TEST_SECTION: &str = "256,192,11000,21,2,0:0:0:0:
256,192,11200,8,12,12000,3:0:0:80:
100,100,12600,6,1,B|200:200|250:200|250:200|300:150,2,310.123,2|1|2,0:0|0:0|0:2,0:0:0:0:
";

const TEST_HIT_CIRCLE: &str = "256,192,11000,21,2,0:0:0:0:";
const TEST_SPINNER: &str = "256,192,11200,8,12,12000,3:0:0:80:";
const TEST_SLIDER: &str = "100,100,12600,6,1,B|200:200|250:200|250:200|300:150,2,310.123,2|1|2,0:0|0:0|0:2,0:0:0:0:";

fn float(d: &Decimal) -> f32 {
    d.to_string().parse().unwrap()
}

fn test_slider_object() -> HitObject {
    let object_type = HitObjectType::Slider(SliderParams {
        curve_points: vec![
            SliderPoint { x: 200, y: 200 },
            SliderPoint { x: 250, y: 200 },
            SliderPoint { x: 250, y: 200 },
            SliderPoint { x: 300, y: 150 },
        ],
        slider_type: SliderType::Bezier,
        length: Decimal::from_str("310.123").unwrap(),
        slides: 2,
        edge_sounds: EdgeSounds {
            sounds: vec![2, 1, 2],
            sets: vec![(0, 0), (0, 0), (0, 2)],
        },
    });
    HitObject {
        x: 100,
        y: 100,
        time: 12600,
        object_params: object_type,
        new_combo: true,
        combo_skip: 0,
        hit_sound: HitSoundFlag::default(),
        hit_sample: HitSample::default(),
    }
}

fn test_spinner_object() -> HitObject {
    let mut spinner = HitObject {
        x: 256,
        y: 192,
        time: 11200,
        object_params: HitObjectType::Spinner(SpinnerParams { end_time: 12000 }),
        new_combo: false,
        combo_skip: 0,
        hit_sound: HitSoundFlag::finish().union(HitSoundFlag::clap()),
        hit_sample: HitSample::default(),
    };
    spinner.hit_sample.volume = 80;
    spinner.hit_sample.normal_set = SampleSet::Drum;
    spinner
}

fn test_circle_object() -> HitObject {
    HitObject {
        x: 256,
        y: 192,
        time: 11000,
        object_params: HitObjectType::HitCircle,
        new_combo: true,
        combo_skip: 1,
        hit_sound: HitSoundFlag::whistle(),
        hit_sample: HitSample::default(),
    }
}

#[test]
fn parse_hit_objects() {
    let hit_objects: CommaListOf<HitObject> = CommaListOf::parse(TEST_SECTION).unwrap();

    assert_eq!(hit_objects.len(), 3);
}

#[test]
fn serialize_hit_objects() {
    let mut hit_objects: CommaListOf<HitObject> = CommaListOf::new();

    hit_objects.push(test_circle_object());
    hit_objects.push(test_spinner_object());
    hit_objects.push(test_slider_object());

    assert_eq!(hit_objects.serialize(), TEST_SECTION)
}

#[test]
fn parse_hit_circle() {
    let hit_circle = HitObject::parse(TEST_HIT_CIRCLE).unwrap();

    assert_eq!(hit_circle.x, 256);
    assert_eq!(hit_circle.y, 192);
    assert_eq!(hit_circle.time, 11000);
    assert_eq!(hit_circle.object_params, HitObjectType::HitCircle);
    assert_eq!(hit_circle.new_combo, true);
    assert_eq!(hit_circle.combo_skip, 1);
    assert_eq!(hit_circle.hit_sound, HitSoundFlag::whistle());
    assert_eq!(hit_circle.hit_sample, HitSample::default());
}

#[test]
fn parse_spinner() {
    let spinner = HitObject::parse(TEST_SPINNER).unwrap();

    assert_eq!(spinner.x, 256);
    assert_eq!(spinner.y, 192);
    assert_eq!(spinner.time, 11200);
    assert_eq!(
        spinner.object_params,
        HitObjectType::Spinner(SpinnerParams { end_time: 12000 })
    );
    assert_eq!(spinner.new_combo, false);
    assert_eq!(spinner.combo_skip, 0);
    assert_eq!(
        spinner.hit_sound,
        HitSoundFlag::finish().union(HitSoundFlag::clap())
    );
    assert_eq!(spinner.hit_sample.normal_set, SampleSet::Drum);
    assert_eq!(spinner.hit_sample.volume, 80);
}

#[test]
fn parse_slider() {
    let slider = HitObject::parse(TEST_SLIDER).unwrap();
    let slider_params: SliderParams = slider.object_params.try_into_inner().unwrap();

    assert_eq!(slider.x, 100);
    assert_eq!(slider.y, 100);
    assert_eq!(slider.time, 12600);
    assert_eq!(slider.new_combo, true);
    assert_eq!(slider.combo_skip, 0);
    assert_eq!(slider.hit_sound, HitSoundFlag::default());
    assert_eq!(slider.hit_sample, HitSample::default());
    assert_eq!(slider_params.curve_points.len(), 4);
    assert_eq!(slider_params.slider_type, SliderType::Bezier);
    assert_eq!(float(&slider_params.length), 310.123);
    assert_eq!(slider_params.slides, 2);
    assert_eq!(slider_params.edge_sounds.sounds.len(), 3);
    assert_eq!(slider_params.edge_sounds.sets.len(), 3);
}

#[test]
fn serialize_hit_circle() {
    assert_eq!(test_circle_object().serialize(), TEST_HIT_CIRCLE)
}

#[test]
fn serialize_spinner() {
    assert_eq!(test_spinner_object().serialize(), TEST_SPINNER)
}

#[test]
fn serialize_slider() {
    assert_eq!(test_slider_object().serialize(), TEST_SLIDER)
}

#[test]
fn each_shape_encodes_back_to_its_line() {
    for line in [
        TEST_HIT_CIRCLE,
        TEST_SPINNER,
        TEST_SLIDER,
        "64,192,1500,128,0,1800:0:0:0:0:",
        "10,20,30,5,0,1:2:3:4:hit.wav",
        "1,2,3,2,0,L|4:5|6:7,1,0.5,0|0,1:2|3:4,0:0:0:0:",
    ] {
        assert_eq!(HitObject::parse(line).unwrap().serialize(), line);
    }
}

#[test]
fn hold_note_end_time_is_colon_delimited() {
    let hold = HitObject::parse("64,192,1500,128,0,1800:0:0:0:0:").unwrap();
    assert_eq!(
        hold.object_params,
        HitObjectType::ManiaHold(ManiaHoldParams { end_time: 1800 })
    );
    assert_eq!(hold.hit_sample, HitSample::default());
}

#[test]
fn circle_without_sample_takes_defaults() {
    let circle = HitObject::parse("1,2,3,1,0").unwrap();
    assert_eq!(circle.hit_sample, HitSample::default());
    assert_eq!(circle.serialize(), "1,2,3,1,0,0:0:0:0:");
}

#[test]
fn combo_skip_bits_round_trip() {
    for skip in 0u8..8 {
        let bits = 1 | 4 | (skip << 4);
        let line = format!("0,0,0,{},0,0:0:0:0:", bits);
        let object = HitObject::parse(&line).unwrap();
        assert_eq!(object.new_combo, true);
        assert_eq!(object.combo_skip, skip);
        assert_eq!(object.serialize(), line);
    }
    let no_new_combo = HitObject::parse("0,0,0,49,0,0:0:0:0:").unwrap();
    assert_eq!(no_new_combo.new_combo, false);
    assert_eq!(no_new_combo.combo_skip, 0);
}

#[test]
fn shape_bits_first_set_bit_wins() {
    let object = HitObject::parse("0,0,0,3,0,0:0:0:0:").unwrap();
    assert_eq!(object.object_params, HitObjectType::HitCircle);
    assert_eq!(
        HitObject::parse("0,0,0,4,0,0:0:0:0:").unwrap_err(),
        BeatmapParseError::InvalidFormat {
            field: "object_params".to_string()
        }
    );
}

#[test]
fn hit_object_errors_name_the_field() {
    assert_eq!(
        HitObject::parse("a,0,0,1,0").unwrap_err(),
        BeatmapParseError::InvalidFormat {
            field: "x".to_string()
        }
    );
    assert_eq!(
        HitObject::parse("0,0,0,x,0").unwrap_err(),
        BeatmapParseError::InvalidFormat {
            field: "object_type".to_string()
        }
    );
    assert_eq!(
        HitObject::parse("0,0,0,8,0,12000").unwrap_err(),
        BeatmapParseError::InvalidFormat {
            field: "object_params/hit_sample".to_string()
        }
    );
    assert_eq!(
        HitObject::parse("0,0,0,1,0,9:0:0:0:").unwrap_err(),
        BeatmapParseError::InvalidFormat {
            field: "hit_sample".to_string()
        }
    );
}

#[test]
fn hit_sample_errors_and_text() {
    assert_eq!(
        HitSample::from_str("0:0:x:0:").unwrap_err(),
        BeatmapParseError::InvalidFormat {
            field: "index".to_string()
        }
    );
    let sample = HitSample::from_str("1:2:3:40:clap.wav").unwrap();
    assert_eq!(sample.normal_set, SampleSet::Normal);
    assert_eq!(sample.additional_set, SampleSet::Soft);
    assert_eq!(sample.to_string(), "1:2:3:40:clap.wav");
}

#[test]
fn slider_parts() {
    assert_eq!(SliderPoint::from_str(" 3 : -4 ").unwrap(), SliderPoint { x: 3, y: -4 });
    assert_eq!(SliderType::from_str("P").unwrap(), SliderType::PerfectCircle);
    assert!(SliderType::from_str("PC").is_none());
    let edges = EdgeSounds::from_str("2|0,0:1|2:3").unwrap();
    assert_eq!(edges.sounds, vec![2, 0]);
    assert_eq!(edges.sets, vec![(0, 1), (2, 3)]);
    assert_eq!(edges.to_string(), "2|0,0:1|2:3");
    let slider = HitObject::parse(TEST_SLIDER).unwrap();
    let params: SliderParams = slider.object_params.try_into_inner().unwrap();
    assert_eq!(
        params.serialize_curve_points(),
        "|200:200|250:200|250:200|300:150"
    );
}

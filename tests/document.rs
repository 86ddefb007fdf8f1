use osu_beatmap::error::{BeatmapParseError, GeneralError, MapTypeError};
use osu_beatmap::number::Decimal;
use osu_beatmap::types::general::{Countdown, Gamemode, OverlayPosition, SampleSet};
use osu_beatmap::types::OsuBool;
use osu_beatmap::BeatmapLevel;

const CANONICAL: &str = "osu file format v14

[General]
AudioFilename: audio.mp3
PreviewTime: 1000
Mode: 1

[Editor]
Bookmarks: 100,200
GridSize: 4

[Metadata]
Title:Song
Creator:Someone
Tags:a b
BeatmapID:12

[Difficulty]
HPDrainRate:5
CircleSize:4.5

[Events]
0,0,\"bg.jpg\",0,0
2,100,200

[TimingPoints]
0,500,4,2,0,60,1,0

[Colours]
Combo1 : 255,128,0
SliderBorder : 1,2,3

[HitObjects]
256,192,1000,5,0,0:0:0:0:
100,100,1200,2,2,B|200:200|300:100,1,150.5,2|0,0:0|1:2,0:0:0:0:
256,192,1500,12,8,2000,0:0:0:0:
";

#[test]
fn canonical_document_round_trips() {
    let level = BeatmapLevel::parse(CANONICAL).unwrap();
    assert_eq!(level.serialize(), CANONICAL);
    assert_eq!(level.general.mode, Gamemode::TAIKO);
    assert_eq!(level.metadata.tags, vec!["a".to_string(), "b".to_string()]);
    assert_eq!(level.events.len(), 2);
    assert_eq!(level.timing_points.len(), 1);
    assert_eq!(level.hit_objects.len(), 3);
    assert!(level.colours.slider_border.is_some());
}

#[test]
fn reparsing_canonical_output_keeps_values() {
    let messy = "osu file format v14\r\n[General]\r\nMode:   3  \r\n  AudioFilename:x.ogg\r\n\
[Editor]\r\n[Metadata]\r\nTitle:   T \r\n[Difficulty]\r\nApproachRate:9.50\r\n\
[Events]\r\n//comment\r\n[HitObjects]\r\n1,2,3,1,0\r\n";
    let first = BeatmapLevel::parse(messy).unwrap();
    let text = first.serialize();
    let second = BeatmapLevel::parse(&text).unwrap();
    assert_eq!(second.general.mode, Gamemode::MANIA);
    assert_eq!(second.general.audio_filename, "x.ogg");
    assert_eq!(second.metadata.title, "T");
    assert_eq!(second.difficulty.approach_rate, first.difficulty.approach_rate);
    assert_eq!(second.difficulty.approach_rate.to_string(), "9.5");
    assert_eq!(second.hit_objects.len(), 1);
    assert_eq!(second.serialize(), text);
}

#[test]
fn missing_mandatory_section_is_named() {
    let text = CANONICAL.replace("[Editor]", "[Editr]");
    assert_eq!(
        BeatmapLevel::parse(&text).unwrap_err(),
        BeatmapParseError::SectionNotFound {
            section: "[Editor]".to_string()
        }
    );
    let text = CANONICAL.replace("[HitObjects]", "");
    assert_eq!(
        BeatmapLevel::parse(&text).unwrap_err(),
        BeatmapParseError::SectionNotFound {
            section: "[HitObjects]".to_string()
        }
    );
}

#[test]
fn optional_sections_may_be_absent() {
    let text = CANONICAL
        .replace("[TimingPoints]\n0,500,4,2,0,60,1,0\n", "")
        .replace("[Colours]\nCombo1 : 255,128,0\nSliderBorder : 1,2,3\n", "");
    let level = BeatmapLevel::parse(&text).unwrap();
    assert_eq!(level.timing_points.len(), 0);
    assert!(level.colours.combos[0].is_none());
    assert!(level.serialize().contains("[TimingPoints]\n\n[Colours]\n\n[HitObjects]"));
}

#[test]
fn section_error_propagates_unchanged() {
    let text = CANONICAL.replace("CircleSize:4.5", "CircleSize:four");
    assert_eq!(
        BeatmapLevel::parse(&text).unwrap_err(),
        BeatmapParseError::InvalidFormat {
            field: "CircleSize".to_string()
        }
    );
}

#[test]
fn new_level_serializes_empty_sections() {
    let level = BeatmapLevel::new();
    assert_eq!(
        level.serialize(),
        "osu file format v14\n\n[General]\n\n[Editor]\n\n[Metadata]\n\n[Difficulty]\n\n\
[Events]\n\n[TimingPoints]\n\n[Colours]\n\n[HitObjects]\n"
    );
}

#[test]
fn booleans_read_words_and_digits() {
    assert_eq!(OsuBool::from_str("true"), Ok(OsuBool(true)));
    assert_eq!(OsuBool::from_str("0"), Ok(OsuBool(false)));
    assert_eq!(OsuBool::from_str("yes"), Err(MapTypeError::UnexpectedBoolValue));
    assert_eq!(OsuBool(true).to_string(), "1");
    assert_eq!(OsuBool(false).to_string(), "0");
    let b: bool = OsuBool(true).into();
    assert!(b);
}

#[test]
fn enumeration_format_and_value_errors_differ() {
    assert_eq!(
        Gamemode::from_str("x"),
        Err(GeneralError::UnexpectedGamemodeFormat)
    );
    assert_eq!(
        Gamemode::from_str("9"),
        Err(GeneralError::UnexpectedGamemodeValue { value: 9 })
    );
    assert_eq!(
        Countdown::from_str("-1"),
        Err(GeneralError::UnexpectedCountdownValue { value: -1 })
    );
    assert_eq!(
        Countdown::from_str("1.5"),
        Err(GeneralError::UnexpectedCountdownFormat)
    );
    assert_eq!(Countdown::from_str("3"), Ok(Countdown::DOUBLE));
    assert_eq!(
        OverlayPosition::from_str("Top"),
        Err(GeneralError::UnexpectedOverlayPosValue {
            value: "Top".to_string()
        })
    );
    assert_eq!(OverlayPosition::from_str("Below"), Ok(OverlayPosition::BELOW));
    assert_eq!(
        SampleSet::from_str("Loud"),
        Err(GeneralError::UnexpectedSampleSetValue {
            value: "Loud".to_string()
        })
    );
    assert_eq!(SampleSet::SOFT.to_string(), "Soft");
    assert_eq!(Gamemode::CTB.to_string(), "2");
}

#[test]
fn decimals_keep_their_written_value() {
    let d = Decimal::from_str("-0.250").unwrap();
    assert_eq!(d.to_string(), "-0.25");
    assert_eq!(Decimal::from_str("+7.").unwrap().to_string(), "7");
    assert_eq!(Decimal::from_str(".5").unwrap().to_string(), "0.5");
    assert_eq!(Decimal::from_str("-0").unwrap(), Decimal::zero());
    assert!(Decimal::from_str("1e5").is_none());
    assert!(Decimal::from_str(".").is_none());
    assert_eq!(Decimal::from_str("0.005").unwrap().to_string(), "0.005");
}

use osu_beatmap::error::BeatmapParseError;
use osu_beatmap::number::Decimal;
use osu_beatmap::section::difficulty::DifficultySection;
use osu_beatmap::section::editor::EditorSection;
use osu_beatmap::section::general::GeneralSection;
use osu_beatmap::section::metadata::MetadataSection;
use osu_beatmap::types::general::Countdown::NONE;
use osu_beatmap::types::general::Gamemode::STD;
use osu_beatmap::types::general::SampleSet::NORMAL;

fn float(d: &Decimal) -> f32 {
    d.to_string().parse().unwrap()
}

fn dec(s: &str) -> Decimal {
    Decimal::from_str(s).unwrap()
}

const METADATA_SECTION: &str = "Title:Marble Soda
TitleUnicode:Marble Soda
Artist:Shawn Wasabi
ArtistUnicode:Shawn Wasabi
Creator:Len
Version:Crier's Hyper
Tags:Narcissu launchpad midi fighter Crier BetaStar mashup Fast
BeatmapID:846260
BeatmapSetID:387784
";

#[test]
fn parse_metadata() {
    let metadata = MetadataSection::parse(METADATA_SECTION).unwrap();

    assert_eq!(metadata.title, "Marble Soda");
    assert_eq!(metadata.title_unicode, "Marble Soda");
    assert_eq!(metadata.artist, "Shawn Wasabi");
    assert_eq!(metadata.artist_unicode, "Shawn Wasabi");
    assert_eq!(metadata.creator, "Len");
    assert_eq!(metadata.version, "Crier's Hyper");
    assert_eq!(metadata.source, "");
    assert_eq!(metadata.tags.len(), 8);
    assert_eq!(metadata.beatmap_id, 846260);
    assert_eq!(metadata.beatmap_set_id, 387784)
}

#[test]
fn serialize_metadata() {
    let mut metadata = MetadataSection::new();
    metadata.title = String::from("Marble Soda");
    metadata.title_unicode = String::from("Marble Soda");
    metadata.artist = String::from("Shawn Wasabi");
    metadata.artist_unicode = String::from("Shawn Wasabi");
    metadata.creator = String::from("Len");
    metadata.version = String::from("Crier's Hyper");
    metadata.source = String::from("");
    metadata.tags.push(String::from("Narcissu"));
    metadata.tags.push(String::from("launchpad"));
    metadata.tags.push(String::from("midi"));
    metadata.tags.push(String::from("fighter"));
    metadata.tags.push(String::from("Crier"));
    metadata.tags.push(String::from("BetaStar"));
    metadata.tags.push(String::from("mashup"));
    metadata.tags.push(String::from("Fast"));
    metadata.beatmap_id = 846260;
    metadata.beatmap_set_id = 387784;

    let serialized_metadata = metadata.serialize();

    assert_eq!(serialized_metadata, METADATA_SECTION);
}

const DIFFICULTY_SECTION: &str = "HPDrainRate:5
CircleSize:4
OverallDifficulty:6
ApproachRate:8
SliderMultiplier:1.5
SliderTickRate:1
";

#[test]
fn parse_difficulty() {
    let difficulty = DifficultySection::parse(DIFFICULTY_SECTION).unwrap();

    assert_eq!(float(&difficulty.hp_drain_rate), 5.0);
    assert_eq!(float(&difficulty.circle_size), 4.0);
    assert_eq!(float(&difficulty.overall_difficulty), 6.0);
    assert_eq!(float(&difficulty.approach_rate), 8.0);
    assert_eq!(float(&difficulty.slider_multiplier), 1.5);
    assert_eq!(float(&difficulty.slider_tick_rate), 1.0);
}

#[test]
fn serialize_difficulty() {
    let mut difficulty = DifficultySection::new();
    difficulty.hp_drain_rate = dec("5.0");
    difficulty.circle_size = dec("4.0");
    difficulty.overall_difficulty = dec("6.0");
    difficulty.approach_rate = dec("8.0");
    difficulty.slider_multiplier = dec("1.5");
    difficulty.slider_tick_rate = dec("1.0");

    let serialized_difficulty = difficulty.serialize();

    assert_eq!(serialized_difficulty, DIFFICULTY_SECTION)
}

#[test]
fn difficulty_two_fields_and_defaults() {
    let difficulty = DifficultySection::parse("HPDrainRate:5\nCircleSize:4\n").unwrap();
    assert_eq!(float(&difficulty.hp_drain_rate), 5.0);
    assert_eq!(float(&difficulty.circle_size), 4.0);
    assert_eq!(float(&difficulty.overall_difficulty), 0.0);
    assert_eq!(float(&difficulty.approach_rate), 0.0);
    assert_eq!(float(&difficulty.slider_multiplier), 0.0);
    assert_eq!(float(&difficulty.slider_tick_rate), 0.0);
    assert_eq!(difficulty.serialize(), "HPDrainRate:5\nCircleSize:4\n");
}

#[test]
fn malformed_value_names_its_field() {
    assert_eq!(
        DifficultySection::parse("HPDrainRate:abc\n").unwrap_err(),
        BeatmapParseError::InvalidFormat {
            field: "HPDrainRate".to_string()
        }
    );
    assert_eq!(
        MetadataSection::parse("BeatmapID:abc\n").unwrap_err(),
        BeatmapParseError::InvalidFormat {
            field: "BeatmapID".to_string()
        }
    );
    assert_eq!(
        GeneralSection::parse("Mode: 7\n").unwrap_err(),
        BeatmapParseError::InvalidFormat {
            field: "Mode".to_string()
        }
    );
}

#[test]
fn field_line_without_colon_is_not_a_pair() {
    assert_eq!(
        DifficultySection::parse("CircleSize 4\n").unwrap_err(),
        BeatmapParseError::NotValidPair
    );
}

#[test]
fn default_values_are_left_out() {
    let mut metadata = MetadataSection::new();
    metadata.beatmap_id = 0;
    metadata.creator = String::from("x");
    assert_eq!(metadata.serialize(), "Creator:x\n");
    let parsed = MetadataSection::parse("Creator:x\n").unwrap();
    assert_eq!(parsed.beatmap_id, 0);
    assert_eq!(parsed.title, "");
    let general = GeneralSection::parse("Countdown: 1\nMode: 0\n").unwrap();
    assert_eq!(general.serialize(), "");
}

#[test]
fn field_names_match_as_substrings() {
    let general = GeneralSection::parse("CountdownOffset: 2\nCountdown: 3\n").unwrap();
    assert_eq!(general.countdown_offset, 2);
    assert_eq!(
        GeneralSection::parse("CountdownOffset: 5\n").unwrap_err(),
        BeatmapParseError::InvalidFormat {
            field: "Countdown".to_string()
        }
    );
}

const EDITOR_SECTION: &str = "Bookmarks: 121309
DistanceSpacing: 0.5
BeatDivisor: 4
GridSize: 32
TimelineZoom: 1.6
";

#[test]
fn parse_editor() {
    let editor = EditorSection::parse(EDITOR_SECTION).unwrap();

    assert_eq!(editor.bookmarks.len(), 1);
    assert_eq!(editor.bookmarks[0], 121309);
    assert_eq!(float(&editor.distance_spacing), 0.5);
    assert_eq!(float(&editor.beat_divisor), 4.0);
    assert_eq!(editor.grid_size, 32);
    assert_eq!(float(&editor.timeline_zoom), 1.6);
}

#[test]
fn serialize_editor() {
    let mut editor = EditorSection::new();
    editor.bookmarks.push(121309);
    editor.distance_spacing = dec("0.5");
    editor.beat_divisor = dec("4.0");
    editor.grid_size = 32;
    editor.timeline_zoom = dec("1.6");

    let serialized_editor = editor.serialize();

    assert_eq!(serialized_editor, EDITOR_SECTION)
}

#[test]
fn editor_bookmarks_absent_or_malformed() {
    let editor = EditorSection::parse("GridSize: 4\n").unwrap();
    assert_eq!(editor.bookmarks.len(), 0);
    let editor = EditorSection::parse("Bookmarks: 1,2,30\n").unwrap();
    assert_eq!(editor.bookmarks, vec![1, 2, 30]);
    assert_eq!(editor.serialize(), "Bookmarks: 1,2,30\n");
    assert_eq!(
        EditorSection::parse("Bookmarks: 1,x\n").unwrap_err(),
        BeatmapParseError::InvalidFormat {
            field: "Bookmarks".to_string()
        }
    );
}

const GENERAL_SECTION: &str = "AudioFilename: marb.mp3
PreviewTime: 126478
Countdown: 0
StackLeniency: 0.7
LetterboxInBreaks: 1
EpilepsyWarning: 1
WidescreenStoryboard: 1
";

#[test]
fn parse_general() {
    let general = GeneralSection::parse(GENERAL_SECTION).unwrap();

    assert_eq!(general.audio_filename, "marb.mp3");
    assert_eq!(general.preview_time, 126478);
    assert_eq!(general.countdown, NONE);
    assert_eq!(float(&general.stack_leniency), 0.7);
    assert_eq!(general.lb_in_breaks, true.into());
    assert_eq!(general.epilepsy_warn, true.into());
    assert_eq!(general.widescreen_sb, true.into());
}

#[test]
fn serialize_general() {
    let mut general = GeneralSection::default();
    general.audio_filename = "marb.mp3".to_string();
    general.audio_lead_in = 0;
    general.preview_time = 126478;
    general.countdown = NONE;
    general.sample_set = NORMAL;
    general.stack_leniency = dec("0.7");
    general.mode = STD;
    general.lb_in_breaks = true.into();
    general.epilepsy_warn = true.into();
    general.widescreen_sb = true.into();

    let serialized_general = general.serialize();

    assert_eq!(serialized_general, GENERAL_SECTION);
}

#[test]
fn general_reads_words_for_booleans() {
    let general = GeneralSection::parse("UseSkinSprites: true\nSpecialStyle: false\nOverlayPosition: Above\n").unwrap();
    assert_eq!(general.use_skin_sprites, true.into());
    assert_eq!(general.special_style, false.into());
    assert_eq!(
        general.serialize(),
        "UseSkinSprites: 1\nOverlayPosition: Above\n"
    );
}

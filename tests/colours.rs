use osu_beatmap::error::BeatmapParseError;
use osu_beatmap::section::colours::{Colour, ColourType, Colours, Rgb};

const TEST_COLOURS: &str = "Combo1 : 255,0,0
Combo2 : 202,202,202
";

#[test]
fn parse_colours() {
    let colours = Colours::parse(TEST_COLOURS).unwrap();

    let colours_combo_one = colours.combos[0].as_ref().unwrap();
    let colours_combo_two = colours.combos[1].as_ref().unwrap();

    assert_eq!(colours_combo_one.colour_of, ColourType::Combo(1));
    assert_eq!(colours_combo_one.colour.red, 255);
    assert_eq!(colours_combo_one.colour.green, 0);
    assert_eq!(colours_combo_one.colour.blue, 0);
    assert_eq!(colours_combo_two.colour_of, ColourType::Combo(2));
    assert_eq!(colours_combo_two.colour.red, 202);
    assert_eq!(colours_combo_two.colour.green, 202);
    assert_eq!(colours_combo_two.colour.blue, 202);

    for i in 2..8 as usize {
        assert_eq!(colours.combos[i], None);
    }

    assert_eq!(colours.slider_track_override, None);
    assert_eq!(colours.slider_border, None);
}

#[test]
fn serialize_colours() {
    let mut colours = Colours::new();
    let colours_combo_one = Colour {
        colour_of: ColourType::Combo(1),
        colour: Rgb {
            red: 255,
            green: 0,
            blue: 0,
        },
    };
    let colours_combo_two = Colour {
        colour_of: ColourType::Combo(2),
        colour: Rgb {
            red: 202,
            green: 202,
            blue: 202,
        },
    };
    colours.combos[0] = Some(colours_combo_one);
    colours.combos[1] = Some(colours_combo_two);

    assert_eq!(colours.serialize(), TEST_COLOURS);
}

const TEST_COMBO: &str = "Combo2";
const TEST_SLIDER_TRACK_OVERRIDE: &str = "SliderTrackOverride";
const TEST_SLIDER_BORDER: &str = "SliderBorder";

#[test]
fn parse_colour_type() {
    let combo = ColourType::from_str(TEST_COMBO).unwrap();
    let slider_track_override = ColourType::from_str(TEST_SLIDER_TRACK_OVERRIDE).unwrap();
    let slider_border = ColourType::from_str(TEST_SLIDER_BORDER).unwrap();

    assert_eq!(combo, ColourType::Combo(2));
    assert_eq!(slider_track_override, ColourType::SliderTrackOverride);
    assert_eq!(slider_border, ColourType::SliderBorder);
}

#[test]
fn serialize_colour_type() {
    let combo = ColourType::Combo(2);
    let slider_track_override = ColourType::SliderTrackOverride;
    let slider_border = ColourType::SliderBorder;

    assert_eq!(combo.to_string(), TEST_COMBO);
    assert_eq!(slider_track_override.to_string(), TEST_SLIDER_TRACK_OVERRIDE);
    assert_eq!(slider_border.to_string(), TEST_SLIDER_BORDER);
}

const TEST_RGB: &str = "255,202,202";

#[test]
fn parse_rgb() {
    let rgb = Rgb::from_str(TEST_RGB).unwrap();

    assert_eq!(rgb.red, 255);
    assert_eq!(rgb.green, 202);
    assert_eq!(rgb.blue, 202);
}

#[test]
fn serialize_rgb() {
    let rgb = Rgb {
        red: 255,
        green: 202,
        blue: 202,
    };

    assert_eq!(rgb.to_string(), TEST_RGB)
}

#[test]
fn rgb_component_errors_name_the_component() {
    assert_eq!(
        Rgb::from_str("1,x,3").unwrap_err(),
        BeatmapParseError::InvalidFormat {
            field: "green".to_string()
        }
    );
    assert_eq!(
        Rgb::from_str("1,2").unwrap_err(),
        BeatmapParseError::InvalidFormat {
            field: "blue".to_string()
        }
    );
    assert_eq!(
        Rgb::from_str("256,0,0").unwrap_err(),
        BeatmapParseError::InvalidFormat {
            field: "red".to_string()
        }
    );
}

#[test]
fn colours_slider_colours_and_blank_lines() {
    let text = "SliderTrackOverride : 1,2,3\n\n  SliderBorder: 4,5,6  \nCombo8 : 7,8,9\n";
    let colours = Colours::parse(text).unwrap();
    assert_eq!(colours.combos[7].unwrap().colour.blue, 9);
    assert_eq!(colours.slider_track_override.unwrap().colour.red, 1);
    assert_eq!(colours.slider_border.unwrap().colour.green, 5);
    assert_eq!(
        colours.serialize(),
        "Combo8 : 7,8,9\nSliderTrackOverride : 1,2,3\nSliderBorder : 4,5,6\n"
    );
}

#[test]
fn colours_out_of_range_combo_is_refused() {
    assert_eq!(
        Colours::parse("Combo9 : 1,2,3").unwrap_err(),
        BeatmapParseError::InvalidFormat {
            field: "colour".to_string()
        }
    );
    assert_eq!(
        Colours::parse("Combo0 : 1,2,3").unwrap_err(),
        BeatmapParseError::InvalidFormat {
            field: "colour".to_string()
        }
    );
    assert!(Colours::parse("").unwrap().serialize().is_empty());
}

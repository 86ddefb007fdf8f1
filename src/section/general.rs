//! The general section.
use vstd::prelude::*;
use vstd::seq_lib::lemma_concat_associative;
use crate::error::{result_view, BeatmapParseError, ParseFault};
use crate::section::{
    field_as, field_text, get_bool_field, get_countdown_field, get_decimal_field,
    get_gamemode_field, get_i32_field, get_overlay_field, get_sample_set_field, get_text_field,
    write_bool_field, write_countdown_field, write_decimal_field, write_gamemode_field,
    write_i32_field, write_overlay_field, write_sample_set_field, write_text_field,
};
use crate::number::{decimal_of, decimal_text, i32_of, int_text, Decimal};
use crate::text::{chars_of, lines, lines_of};
use crate::types::general::{Countdown, Gamemode, OverlayPosition, SampleSet};
use crate::types::{bool_of, OsuBool};

verus! {

/// The model of [`GeneralSection`].
pub struct GeneralSectionView {
    pub audio_filename: Seq<char>,
    pub audio_lead_in: i32,
    pub audio_hash: Seq<char>,
    pub preview_time: i32,
    pub countdown: Countdown,
    pub sample_set: SampleSet,
    pub stack_leniency: Decimal,
    pub mode: Gamemode,
    pub lb_in_breaks: OsuBool,
    pub story_fire_in_front: OsuBool,
    pub use_skin_sprites: OsuBool,
    pub show_playfield: OsuBool,
    pub overlay_pos: OverlayPosition,
    pub skin_preference: Seq<char>,
    pub epilepsy_warn: OsuBool,
    pub countdown_offset: i32,
    pub special_style: OsuBool,
    pub widescreen_sb: OsuBool,
    pub sample_match_pb_rate: OsuBool,
}

/// General information about the beatmap.
#[derive(Debug, Default)]
pub struct GeneralSection {
    /// Location of the audio file relative to the current folder
    pub audio_filename: String,
    /// Milliseconds of silence before the audio starts playing
    pub audio_lead_in: i32,
    /// Hash of the audio file; no longer used
    pub audio_hash: String,
    /// Time in milliseconds when the audio preview should start
    pub preview_time: i32,
    /// Speed of the countdown before the first hit object
    pub countdown: Countdown,
    /// Sample set that will be used if timing points do not override it
    pub sample_set: SampleSet,
    /// Multiplier for the threshold in time where hit objects placed close together stack (0–1)
    pub stack_leniency: Decimal,
    /// Game mode
    pub mode: Gamemode,
    /// Whether or not breaks have a letterboxing effect
    pub lb_in_breaks: OsuBool,
    /// Whether the storyboard is drawn in front of combo fire; no longer used
    pub story_fire_in_front: OsuBool,
    /// Whether or not the storyboard can use the user's skin images
    pub use_skin_sprites: OsuBool,
    /// Whether the playfield is always shown; no longer used
    pub show_playfield: OsuBool,
    /// Draw order of hit circle overlays compared to hit numbers
    pub overlay_pos: OverlayPosition,
    /// Preferred skin to use during gameplay
    pub skin_preference: String,
    /// Whether or not a warning about flashing colours should be shown at the beginning of the map
    pub epilepsy_warn: OsuBool,
    /// Time in beats that the countdown starts before the first hit object
    pub countdown_offset: i32,
    /// Whether or not the "N+1" style key layout is used for osu!mania
    pub special_style: OsuBool,
    /// Whether or not the storyboard allows widescreen viewing
    pub widescreen_sb: OsuBool,
    /// Whether or not sound samples will change rate when playing with speed-changing mods
    pub sample_match_pb_rate: OsuBool,
}

impl View for GeneralSection {
    type V = GeneralSectionView;

    open spec fn view(&self) -> GeneralSectionView {
        GeneralSectionView {
            audio_filename: self.audio_filename@,
            audio_lead_in: self.audio_lead_in,
            audio_hash: self.audio_hash@,
            preview_time: self.preview_time,
            countdown: self.countdown,
            sample_set: self.sample_set,
            stack_leniency: self.stack_leniency,
            mode: self.mode,
            lb_in_breaks: self.lb_in_breaks,
            story_fire_in_front: self.story_fire_in_front,
            use_skin_sprites: self.use_skin_sprites,
            show_playfield: self.show_playfield,
            overlay_pos: self.overlay_pos,
            skin_preference: self.skin_preference@,
            epilepsy_warn: self.epilepsy_warn,
            countdown_offset: self.countdown_offset,
            special_style: self.special_style,
            widescreen_sb: self.widescreen_sb,
            sample_match_pb_rate: self.sample_match_pb_rate,
        }
    }
}

impl GeneralSection {
    /// The model of the section whose fields all take their defaults.
    pub open spec fn spec_default() -> GeneralSectionView {
        GeneralSectionView {
            audio_filename: Seq::empty(),
            audio_lead_in: 0i32,
            audio_hash: Seq::empty(),
            preview_time: 0i32,
            countdown: Countdown::NORMAL,
            sample_set: SampleSet::NORMAL,
            stack_leniency: Decimal { negative: false, digits: 0, scale: 0 },
            mode: Gamemode::STD,
            lb_in_breaks: OsuBool(false),
            story_fire_in_front: OsuBool(false),
            use_skin_sprites: OsuBool(false),
            show_playfield: OsuBool(false),
            overlay_pos: OverlayPosition::NOCHANGE,
            skin_preference: Seq::empty(),
            epilepsy_warn: OsuBool(false),
            countdown_offset: 0i32,
            special_style: OsuBool(false),
            widescreen_sb: OsuBool(false),
            sample_match_pb_rate: OsuBool(false),
        }
    }

    /// The section whose fields all take their defaults.
    pub fn new() -> (r: GeneralSection)
        ensures
            r@ == GeneralSection::spec_default(),
    {
        let r = GeneralSection {
            audio_filename: String::new(),
            audio_lead_in: 0,
            audio_hash: String::new(),
            preview_time: 0,
            countdown: Countdown::NORMAL,
            sample_set: SampleSet::NORMAL,
            stack_leniency: Decimal::zero(),
            mode: Gamemode::STD,
            lb_in_breaks: OsuBool(false),
            story_fire_in_front: OsuBool(false),
            use_skin_sprites: OsuBool(false),
            show_playfield: OsuBool(false),
            overlay_pos: OverlayPosition::NOCHANGE,
            skin_preference: String::new(),
            epilepsy_warn: OsuBool(false),
            countdown_offset: 0,
            special_style: OsuBool(false),
            widescreen_sb: OsuBool(false),
            sample_match_pb_rate: OsuBool(false),
        };
        r
    }

    /// The section that `s` spells: each field read from the first line that
    /// names it, its default when no line does.
    pub open spec fn spec_parse(s: Seq<char>) -> Result<GeneralSectionView, ParseFault> {
        let ls = lines(s);
        match field_as(
            ls,
            "AudioFilename"@,
            Seq::empty(),
            |v: Seq<char>| Some(v),
        ) {
            Err(e) => Err(e),
            Ok(audio_filename) => {
                match field_as(
                    ls,
                    "AudioLeadIn"@,
                    0i32,
                    |v: Seq<char>| i32_of(v),
                ) {
                    Err(e) => Err(e),
                    Ok(audio_lead_in) => {
                        match field_as(
                            ls,
                            "AudioHash"@,
                            Seq::empty(),
                            |v: Seq<char>| Some(v),
                        ) {
                            Err(e) => Err(e),
                            Ok(audio_hash) => {
                                match field_as(
                                    ls,
                                    "PreviewTime"@,
                                    0i32,
                                    |v: Seq<char>| i32_of(v),
                                ) {
                                    Err(e) => Err(e),
                                    Ok(preview_time) => {
                                        match field_as(
                                            ls,
                                            "Countdown"@,
                                            Countdown::NORMAL,
                                            |v: Seq<char>|
                match Countdown::spec_parse(v) {
                    Ok(x) => Some(x),
                    Err(_) => None,
                },
                                        ) {
                                            Err(e) => Err(e),
                                            Ok(countdown) => {
                                                match field_as(
                                                    ls,
                                                    "SampleSet"@,
                                                    SampleSet::NORMAL,
                                                    |v: Seq<char>|
                match SampleSet::spec_parse(v) {
                    Ok(x) => Some(x),
                    Err(_) => None,
                },
                                                ) {
                                                    Err(e) => Err(e),
                                                    Ok(sample_set) => {
                                                        match field_as(
                                                            ls,
                                                            "StackLeniency"@,
                                                            Decimal { negative: false, digits: 0, scale: 0 },
                                                            |v: Seq<char>| decimal_of(v),
                                                        ) {
                                                            Err(e) => Err(e),
                                                            Ok(stack_leniency) => {
                                                                match field_as(
                                                                    ls,
                                                                    "Mode"@,
                                                                    Gamemode::STD,
                                                                    |v: Seq<char>|
                match Gamemode::spec_parse(v) {
                    Ok(x) => Some(x),
                    Err(_) => None,
                },
                                                                ) {
                                                                    Err(e) => Err(e),
                                                                    Ok(mode) => {
                                                                        match field_as(
                                                                            ls,
                                                                            "LetterboxInBreaks"@,
                                                                            OsuBool(false),
                                                                            |v: Seq<char>|
                match bool_of(v) {
                    Some(b) => Some(OsuBool(b)),
                    None => None,
                },
                                                                        ) {
                                                                            Err(e) => Err(e),
                                                                            Ok(lb_in_breaks) => {
                                                                                match field_as(
                                                                                    ls,
                                                                                    "StoryFireInFront"@,
                                                                                    OsuBool(false),
                                                                                    |v: Seq<char>|
                match bool_of(v) {
                    Some(b) => Some(OsuBool(b)),
                    None => None,
                },
                                                                                ) {
                                                                                    Err(e) => Err(e),
                                                                                    Ok(story_fire_in_front) => {
                                                                                        match field_as(
                                                                                            ls,
                                                                                            "UseSkinSprites"@,
                                                                                            OsuBool(false),
                                                                                            |v: Seq<char>|
                match bool_of(v) {
                    Some(b) => Some(OsuBool(b)),
                    None => None,
                },
                                                                                        ) {
                                                                                            Err(e) => Err(e),
                                                                                            Ok(use_skin_sprites) => {
                                                                                                match field_as(
                                                                                                    ls,
                                                                                                    "AlwaysShowPlayfield"@,
                                                                                                    OsuBool(false),
                                                                                                    |v: Seq<char>|
                match bool_of(v) {
                    Some(b) => Some(OsuBool(b)),
                    None => None,
                },
                                                                                                ) {
                                                                                                    Err(e) => Err(e),
                                                                                                    Ok(show_playfield) => {
                                                                                                        match field_as(
                                                                                                            ls,
                                                                                                            "OverlayPosition"@,
                                                                                                            OverlayPosition::NOCHANGE,
                                                                                                            |v: Seq<char>|
                match OverlayPosition::spec_parse(v) {
                    Ok(x) => Some(x),
                    Err(_) => None,
                },
                                                                                                        ) {
                                                                                                            Err(e) => Err(e),
                                                                                                            Ok(overlay_pos) => {
                                                                                                                match field_as(
                                                                                                                    ls,
                                                                                                                    "SkinPreference"@,
                                                                                                                    Seq::empty(),
                                                                                                                    |v: Seq<char>| Some(v),
                                                                                                                ) {
                                                                                                                    Err(e) => Err(e),
                                                                                                                    Ok(skin_preference) => {
                                                                                                                        match field_as(
                                                                                                                            ls,
                                                                                                                            "EpilepsyWarning"@,
                                                                                                                            OsuBool(false),
                                                                                                                            |v: Seq<char>|
                match bool_of(v) {
                    Some(b) => Some(OsuBool(b)),
                    None => None,
                },
                                                                                                                        ) {
                                                                                                                            Err(e) => Err(e),
                                                                                                                            Ok(epilepsy_warn) => {
                                                                                                                                match field_as(
                                                                                                                                    ls,
                                                                                                                                    "CountdownOffset"@,
                                                                                                                                    0i32,
                                                                                                                                    |v: Seq<char>| i32_of(v),
                                                                                                                                ) {
                                                                                                                                    Err(e) => Err(e),
                                                                                                                                    Ok(countdown_offset) => {
                                                                                                                                        match field_as(
                                                                                                                                            ls,
                                                                                                                                            "SpecialStyle"@,
                                                                                                                                            OsuBool(false),
                                                                                                                                            |v: Seq<char>|
                match bool_of(v) {
                    Some(b) => Some(OsuBool(b)),
                    None => None,
                },
                                                                                                                                        ) {
                                                                                                                                            Err(e) => Err(e),
                                                                                                                                            Ok(special_style) => {
                                                                                                                                                match field_as(
                                                                                                                                                    ls,
                                                                                                                                                    "WidescreenStoryboard"@,
                                                                                                                                                    OsuBool(false),
                                                                                                                                                    |v: Seq<char>|
                match bool_of(v) {
                    Some(b) => Some(OsuBool(b)),
                    None => None,
                },
                                                                                                                                                ) {
                                                                                                                                                    Err(e) => Err(e),
                                                                                                                                                    Ok(widescreen_sb) => {
                                                                                                                                                        match field_as(
                                                                                                                                                            ls,
                                                                                                                                                            "SamplesMatchPlaybackRate"@,
                                                                                                                                                            OsuBool(false),
                                                                                                                                                            |v: Seq<char>|
                match bool_of(v) {
                    Some(b) => Some(OsuBool(b)),
                    None => None,
                },
                                                                                                                                                        ) {
                                                                                                                                                            Err(e) => Err(e),
                                                                                                                                                            Ok(sample_match_pb_rate) => {
                                                                                                                                                                Ok(GeneralSectionView {
                                                                                                                                                                    audio_filename,
                                                                                                                                                                    audio_lead_in,
                                                                                                                                                                    audio_hash,
                                                                                                                                                                    preview_time,
                                                                                                                                                                    countdown,
                                                                                                                                                                    sample_set,
                                                                                                                                                                    stack_leniency,
                                                                                                                                                                    mode,
                                                                                                                                                                    lb_in_breaks,
                                                                                                                                                                    story_fire_in_front,
                                                                                                                                                                    use_skin_sprites,
                                                                                                                                                                    show_playfield,
                                                                                                                                                                    overlay_pos,
                                                                                                                                                                    skin_preference,
                                                                                                                                                                    epilepsy_warn,
                                                                                                                                                                    countdown_offset,
                                                                                                                                                                    special_style,
                                                                                                                                                                    widescreen_sb,
                                                                                                                                                                    sample_match_pb_rate,
                                                                                                                                                                })
                                                                                                                                                            },
                                                                                                                                                        }
                                                                                                                                                    },
                                                                                                                                                }
                                                                                                                                            },
                                                                                                                                        }
                                                                                                                                    },
                                                                                                                                }
                                                                                                                            },
                                                                                                                        }
                                                                                                                    },
                                                                                                                }
                                                                                                            },
                                                                                                        }
                                                                                                    },
                                                                                                }
                                                                                            },
                                                                                        }
                                                                                    },
                                                                                }
                                                                            },
                                                                        }
                                                                    },
                                                                }
                                                            },
                                                        }
                                                    },
                                                }
                                            },
                                        }
                                    },
                                }
                            },
                        }
                    },
                }
            },
        }
    }

    /// The canonical section: one line per field that is not at its default,
    /// in declaration order.
    pub open spec fn spec_text(v: GeneralSectionView) -> Seq<char> {
        field_text("AudioFilename"@, v.audio_filename, v.audio_filename.len() == 0, true)
            + field_text("AudioLeadIn"@, int_text(v.audio_lead_in as int), v.audio_lead_in == 0, true)
            + field_text("AudioHash"@, v.audio_hash, v.audio_hash.len() == 0, true)
            + field_text("PreviewTime"@, int_text(v.preview_time as int), v.preview_time == 0, true)
            + field_text("Countdown"@, v.countdown.spec_text(), v.countdown == Countdown::NORMAL, true)
            + field_text("SampleSet"@, v.sample_set.spec_text(), v.sample_set == SampleSet::NORMAL, true)
            + field_text("StackLeniency"@, decimal_text(v.stack_leniency), v.stack_leniency.digits == 0, true)
            + field_text("Mode"@, v.mode.spec_text(), v.mode == Gamemode::STD, true)
            + field_text("LetterboxInBreaks"@, v.lb_in_breaks.spec_text(), !v.lb_in_breaks.0, true)
            + field_text("StoryFireInFront"@, v.story_fire_in_front.spec_text(), !v.story_fire_in_front.0, true)
            + field_text("UseSkinSprites"@, v.use_skin_sprites.spec_text(), !v.use_skin_sprites.0, true)
            + field_text("AlwaysShowPlayfield"@, v.show_playfield.spec_text(), !v.show_playfield.0, true)
            + field_text("OverlayPosition"@, v.overlay_pos.spec_text(), v.overlay_pos == OverlayPosition::NOCHANGE, true)
            + field_text("SkinPreference"@, v.skin_preference, v.skin_preference.len() == 0, true)
            + field_text("EpilepsyWarning"@, v.epilepsy_warn.spec_text(), !v.epilepsy_warn.0, true)
            + field_text("CountdownOffset"@, int_text(v.countdown_offset as int), v.countdown_offset == 0, true)
            + field_text("SpecialStyle"@, v.special_style.spec_text(), !v.special_style.0, true)
            + field_text("WidescreenStoryboard"@, v.widescreen_sb.spec_text(), !v.widescreen_sb.0, true)
            + field_text("SamplesMatchPlaybackRate"@, v.sample_match_pb_rate.spec_text(), !v.sample_match_pb_rate.0, true)
    }

    /// Reads the section from characters.
    pub fn parse_chars(s: &[char]) -> (r: Result<GeneralSection, BeatmapParseError>)
        ensures
            result_view(r) == GeneralSection::spec_parse(s@),
    {
        let ls = lines_of(s);
        let audio_filename = match get_text_field(&ls, "AudioFilename") {
            Err(e) => {
                return Err(e);
            },
            Ok(v) => v,
        };
        let audio_lead_in = match get_i32_field(&ls, "AudioLeadIn") {
            Err(e) => {
                return Err(e);
            },
            Ok(v) => v,
        };
        let audio_hash = match get_text_field(&ls, "AudioHash") {
            Err(e) => {
                return Err(e);
            },
            Ok(v) => v,
        };
        let preview_time = match get_i32_field(&ls, "PreviewTime") {
            Err(e) => {
                return Err(e);
            },
            Ok(v) => v,
        };
        let countdown = match get_countdown_field(&ls, "Countdown") {
            Err(e) => {
                return Err(e);
            },
            Ok(v) => v,
        };
        let sample_set = match get_sample_set_field(&ls, "SampleSet") {
            Err(e) => {
                return Err(e);
            },
            Ok(v) => v,
        };
        let stack_leniency = match get_decimal_field(&ls, "StackLeniency") {
            Err(e) => {
                return Err(e);
            },
            Ok(v) => v,
        };
        let mode = match get_gamemode_field(&ls, "Mode") {
            Err(e) => {
                return Err(e);
            },
            Ok(v) => v,
        };
        let lb_in_breaks = match get_bool_field(&ls, "LetterboxInBreaks") {
            Err(e) => {
                return Err(e);
            },
            Ok(v) => v,
        };
        let story_fire_in_front = match get_bool_field(&ls, "StoryFireInFront") {
            Err(e) => {
                return Err(e);
            },
            Ok(v) => v,
        };
        let use_skin_sprites = match get_bool_field(&ls, "UseSkinSprites") {
            Err(e) => {
                return Err(e);
            },
            Ok(v) => v,
        };
        let show_playfield = match get_bool_field(&ls, "AlwaysShowPlayfield") {
            Err(e) => {
                return Err(e);
            },
            Ok(v) => v,
        };
        let overlay_pos = match get_overlay_field(&ls, "OverlayPosition") {
            Err(e) => {
                return Err(e);
            },
            Ok(v) => v,
        };
        let skin_preference = match get_text_field(&ls, "SkinPreference") {
            Err(e) => {
                return Err(e);
            },
            Ok(v) => v,
        };
        let epilepsy_warn = match get_bool_field(&ls, "EpilepsyWarning") {
            Err(e) => {
                return Err(e);
            },
            Ok(v) => v,
        };
        let countdown_offset = match get_i32_field(&ls, "CountdownOffset") {
            Err(e) => {
                return Err(e);
            },
            Ok(v) => v,
        };
        let special_style = match get_bool_field(&ls, "SpecialStyle") {
            Err(e) => {
                return Err(e);
            },
            Ok(v) => v,
        };
        let widescreen_sb = match get_bool_field(&ls, "WidescreenStoryboard") {
            Err(e) => {
                return Err(e);
            },
            Ok(v) => v,
        };
        let sample_match_pb_rate = match get_bool_field(&ls, "SamplesMatchPlaybackRate") {
            Err(e) => {
                return Err(e);
            },
            Ok(v) => v,
        };
        Ok(GeneralSection {
            audio_filename,
            audio_lead_in,
            audio_hash,
            preview_time,
            countdown,
            sample_set,
            stack_leniency,
            mode,
            lb_in_breaks,
            story_fire_in_front,
            use_skin_sprites,
            show_playfield,
            overlay_pos,
            skin_preference,
            epilepsy_warn,
            countdown_offset,
            special_style,
            widescreen_sb,
            sample_match_pb_rate,
        })
    }

    /// Reads the section from text.
    pub fn parse(s: &str) -> (r: Result<GeneralSection, BeatmapParseError>)
        ensures
            result_view(r) == GeneralSection::spec_parse(s@),
    {
        let c = chars_of(s);
        GeneralSection::parse_chars(&c)
    }

    /// Appends the canonical section to `buf`.
    pub fn write_to(&self, buf: &mut String)
        ensures
            final(buf)@ == old(buf)@ + GeneralSection::spec_text(self@),
    {
        let ghost start = buf@;
        write_text_field(buf, "AudioFilename", &self.audio_filename, true);
        let ghost mut written = field_text("AudioFilename"@, self@.audio_filename, self@.audio_filename.len() == 0, true);
        write_i32_field(buf, "AudioLeadIn", self.audio_lead_in, true);
        proof {
            let line = field_text("AudioLeadIn"@, int_text(self@.audio_lead_in as int), self@.audio_lead_in == 0, true);
            lemma_concat_associative(start, written, line);
            written = written + line;
        }
        write_text_field(buf, "AudioHash", &self.audio_hash, true);
        proof {
            let line = field_text("AudioHash"@, self@.audio_hash, self@.audio_hash.len() == 0, true);
            lemma_concat_associative(start, written, line);
            written = written + line;
        }
        write_i32_field(buf, "PreviewTime", self.preview_time, true);
        proof {
            let line = field_text("PreviewTime"@, int_text(self@.preview_time as int), self@.preview_time == 0, true);
            lemma_concat_associative(start, written, line);
            written = written + line;
        }
        write_countdown_field(buf, "Countdown", &self.countdown, true);
        proof {
            let line = field_text("Countdown"@, self@.countdown.spec_text(), self@.countdown == Countdown::NORMAL, true);
            lemma_concat_associative(start, written, line);
            written = written + line;
        }
        write_sample_set_field(buf, "SampleSet", &self.sample_set, true);
        proof {
            let line = field_text("SampleSet"@, self@.sample_set.spec_text(), self@.sample_set == SampleSet::NORMAL, true);
            lemma_concat_associative(start, written, line);
            written = written + line;
        }
        write_decimal_field(buf, "StackLeniency", &self.stack_leniency, true);
        proof {
            let line = field_text("StackLeniency"@, decimal_text(self@.stack_leniency), self@.stack_leniency.digits == 0, true);
            lemma_concat_associative(start, written, line);
            written = written + line;
        }
        write_gamemode_field(buf, "Mode", &self.mode, true);
        proof {
            let line = field_text("Mode"@, self@.mode.spec_text(), self@.mode == Gamemode::STD, true);
            lemma_concat_associative(start, written, line);
            written = written + line;
        }
        write_bool_field(buf, "LetterboxInBreaks", &self.lb_in_breaks, true);
        proof {
            let line = field_text("LetterboxInBreaks"@, self@.lb_in_breaks.spec_text(), !self@.lb_in_breaks.0, true);
            lemma_concat_associative(start, written, line);
            written = written + line;
        }
        write_bool_field(buf, "StoryFireInFront", &self.story_fire_in_front, true);
        proof {
            let line = field_text("StoryFireInFront"@, self@.story_fire_in_front.spec_text(), !self@.story_fire_in_front.0, true);
            lemma_concat_associative(start, written, line);
            written = written + line;
        }
        write_bool_field(buf, "UseSkinSprites", &self.use_skin_sprites, true);
        proof {
            let line = field_text("UseSkinSprites"@, self@.use_skin_sprites.spec_text(), !self@.use_skin_sprites.0, true);
            lemma_concat_associative(start, written, line);
            written = written + line;
        }
        write_bool_field(buf, "AlwaysShowPlayfield", &self.show_playfield, true);
        proof {
            let line = field_text("AlwaysShowPlayfield"@, self@.show_playfield.spec_text(), !self@.show_playfield.0, true);
            lemma_concat_associative(start, written, line);
            written = written + line;
        }
        write_overlay_field(buf, "OverlayPosition", &self.overlay_pos, true);
        proof {
            let line = field_text("OverlayPosition"@, self@.overlay_pos.spec_text(), self@.overlay_pos == OverlayPosition::NOCHANGE, true);
            lemma_concat_associative(start, written, line);
            written = written + line;
        }
        write_text_field(buf, "SkinPreference", &self.skin_preference, true);
        proof {
            let line = field_text("SkinPreference"@, self@.skin_preference, self@.skin_preference.len() == 0, true);
            lemma_concat_associative(start, written, line);
            written = written + line;
        }
        write_bool_field(buf, "EpilepsyWarning", &self.epilepsy_warn, true);
        proof {
            let line = field_text("EpilepsyWarning"@, self@.epilepsy_warn.spec_text(), !self@.epilepsy_warn.0, true);
            lemma_concat_associative(start, written, line);
            written = written + line;
        }
        write_i32_field(buf, "CountdownOffset", self.countdown_offset, true);
        proof {
            let line = field_text("CountdownOffset"@, int_text(self@.countdown_offset as int), self@.countdown_offset == 0, true);
            lemma_concat_associative(start, written, line);
            written = written + line;
        }
        write_bool_field(buf, "SpecialStyle", &self.special_style, true);
        proof {
            let line = field_text("SpecialStyle"@, self@.special_style.spec_text(), !self@.special_style.0, true);
            lemma_concat_associative(start, written, line);
            written = written + line;
        }
        write_bool_field(buf, "WidescreenStoryboard", &self.widescreen_sb, true);
        proof {
            let line = field_text("WidescreenStoryboard"@, self@.widescreen_sb.spec_text(), !self@.widescreen_sb.0, true);
            lemma_concat_associative(start, written, line);
            written = written + line;
        }
        write_bool_field(buf, "SamplesMatchPlaybackRate", &self.sample_match_pb_rate, true);
        proof {
            let line = field_text("SamplesMatchPlaybackRate"@, self@.sample_match_pb_rate.spec_text(), !self@.sample_match_pb_rate.0, true);
            lemma_concat_associative(start, written, line);
            written = written + line;
        }
    }

    /// The canonical section.
    pub fn serialize(&self) -> (r: String)
        ensures
            r@ == GeneralSection::spec_text(self@),
    {
        let mut buf = String::new();
        self.write_to(&mut buf);
        buf
    }

    /// The canonical section.
    pub fn to_string(&self) -> (r: String)
        ensures
            r@ == GeneralSection::spec_text(self@),
    {
        self.serialize()
    }
}

} // verus!

//! The difficulty section.
use vstd::prelude::*;
use vstd::seq_lib::lemma_concat_associative;
use crate::error::{result_view, BeatmapParseError, ParseFault};
use crate::section::{field_as, field_text, get_decimal_field, write_decimal_field};
use crate::number::{decimal_of, decimal_text, Decimal};
use crate::text::{chars_of, lines, lines_of};

verus! {

/// The model of [`DifficultySection`].
pub struct DifficultySectionView {
    pub hp_drain_rate: Decimal,
    pub circle_size: Decimal,
    pub overall_difficulty: Decimal,
    pub approach_rate: Decimal,
    pub slider_multiplier: Decimal,
    pub slider_tick_rate: Decimal,
}

/// Difficulty settings.
#[derive(Debug, Default)]
pub struct DifficultySection {
    /// HP setting (0–10)
    pub hp_drain_rate: Decimal,
    /// CS setting (0–10)
    pub circle_size: Decimal,
    /// OD setting (0–10)
    pub overall_difficulty: Decimal,
    /// AR setting (0–10)
    pub approach_rate: Decimal,
    /// Base slider velocity in hundreds of osu! pixels per beat
    pub slider_multiplier: Decimal,
    /// Amount of slider ticks per beat
    pub slider_tick_rate: Decimal,
}

impl View for DifficultySection {
    type V = DifficultySectionView;

    open spec fn view(&self) -> DifficultySectionView {
        DifficultySectionView {
            hp_drain_rate: self.hp_drain_rate,
            circle_size: self.circle_size,
            overall_difficulty: self.overall_difficulty,
            approach_rate: self.approach_rate,
            slider_multiplier: self.slider_multiplier,
            slider_tick_rate: self.slider_tick_rate,
        }
    }
}

impl DifficultySection {
    /// The model of the section whose fields all take their defaults.
    pub open spec fn spec_default() -> DifficultySectionView {
        DifficultySectionView {
            hp_drain_rate: Decimal { negative: false, digits: 0, scale: 0 },
            circle_size: Decimal { negative: false, digits: 0, scale: 0 },
            overall_difficulty: Decimal { negative: false, digits: 0, scale: 0 },
            approach_rate: Decimal { negative: false, digits: 0, scale: 0 },
            slider_multiplier: Decimal { negative: false, digits: 0, scale: 0 },
            slider_tick_rate: Decimal { negative: false, digits: 0, scale: 0 },
        }
    }

    /// The section whose fields all take their defaults.
    pub fn new() -> (r: DifficultySection)
        ensures
            r@ == DifficultySection::spec_default(),
    {
        let r = DifficultySection {
            hp_drain_rate: Decimal::zero(),
            circle_size: Decimal::zero(),
            overall_difficulty: Decimal::zero(),
            approach_rate: Decimal::zero(),
            slider_multiplier: Decimal::zero(),
            slider_tick_rate: Decimal::zero(),
        };
        r
    }

    /// The section that `s` spells: each field read from the first line that
    /// names it, its default when no line does.
    pub open spec fn spec_parse(s: Seq<char>) -> Result<DifficultySectionView, ParseFault> {
        let ls = lines(s);
        match field_as(
            ls,
            "HPDrainRate"@,
            Decimal { negative: false, digits: 0, scale: 0 },
            |v: Seq<char>| decimal_of(v),
        ) {
            Err(e) => Err(e),
            Ok(hp_drain_rate) => {
                match field_as(
                    ls,
                    "CircleSize"@,
                    Decimal { negative: false, digits: 0, scale: 0 },
                    |v: Seq<char>| decimal_of(v),
                ) {
                    Err(e) => Err(e),
                    Ok(circle_size) => {
                        match field_as(
                            ls,
                            "OverallDifficulty"@,
                            Decimal { negative: false, digits: 0, scale: 0 },
                            |v: Seq<char>| decimal_of(v),
                        ) {
                            Err(e) => Err(e),
                            Ok(overall_difficulty) => {
                                match field_as(
                                    ls,
                                    "ApproachRate"@,
                                    Decimal { negative: false, digits: 0, scale: 0 },
                                    |v: Seq<char>| decimal_of(v),
                                ) {
                                    Err(e) => Err(e),
                                    Ok(approach_rate) => {
                                        match field_as(
                                            ls,
                                            "SliderMultiplier"@,
                                            Decimal { negative: false, digits: 0, scale: 0 },
                                            |v: Seq<char>| decimal_of(v),
                                        ) {
                                            Err(e) => Err(e),
                                            Ok(slider_multiplier) => {
                                                match field_as(
                                                    ls,
                                                    "SliderTickRate"@,
                                                    Decimal { negative: false, digits: 0, scale: 0 },
                                                    |v: Seq<char>| decimal_of(v),
                                                ) {
                                                    Err(e) => Err(e),
                                                    Ok(slider_tick_rate) => {
                                                        Ok(DifficultySectionView {
                                                            hp_drain_rate,
                                                            circle_size,
                                                            overall_difficulty,
                                                            approach_rate,
                                                            slider_multiplier,
                                                            slider_tick_rate,
                                                        })
                                                    },
                                                }
                                            },
                                        }
                                    },
                                }
                            },
                        }
                    },
                }
            },
        }
    }

    /// The canonical section: one line per field that is not at its default,
    /// in declaration order.
    pub open spec fn spec_text(v: DifficultySectionView) -> Seq<char> {
        field_text("HPDrainRate"@, decimal_text(v.hp_drain_rate), v.hp_drain_rate.digits == 0, false)
            + field_text("CircleSize"@, decimal_text(v.circle_size), v.circle_size.digits == 0, false)
            + field_text("OverallDifficulty"@, decimal_text(v.overall_difficulty), v.overall_difficulty.digits == 0, false)
            + field_text("ApproachRate"@, decimal_text(v.approach_rate), v.approach_rate.digits == 0, false)
            + field_text("SliderMultiplier"@, decimal_text(v.slider_multiplier), v.slider_multiplier.digits == 0, false)
            + field_text("SliderTickRate"@, decimal_text(v.slider_tick_rate), v.slider_tick_rate.digits == 0, false)
    }

    /// Reads the section from characters.
    pub fn parse_chars(s: &[char]) -> (r: Result<DifficultySection, BeatmapParseError>)
        ensures
            result_view(r) == DifficultySection::spec_parse(s@),
    {
        let ls = lines_of(s);
        let hp_drain_rate = match get_decimal_field(&ls, "HPDrainRate") {
            Err(e) => {
                return Err(e);
            },
            Ok(v) => v,
        };
        let circle_size = match get_decimal_field(&ls, "CircleSize") {
            Err(e) => {
                return Err(e);
            },
            Ok(v) => v,
        };
        let overall_difficulty = match get_decimal_field(&ls, "OverallDifficulty") {
            Err(e) => {
                return Err(e);
            },
            Ok(v) => v,
        };
        let approach_rate = match get_decimal_field(&ls, "ApproachRate") {
            Err(e) => {
                return Err(e);
            },
            Ok(v) => v,
        };
        let slider_multiplier = match get_decimal_field(&ls, "SliderMultiplier") {
            Err(e) => {
                return Err(e);
            },
            Ok(v) => v,
        };
        let slider_tick_rate = match get_decimal_field(&ls, "SliderTickRate") {
            Err(e) => {
                return Err(e);
            },
            Ok(v) => v,
        };
        Ok(DifficultySection {
            hp_drain_rate,
            circle_size,
            overall_difficulty,
            approach_rate,
            slider_multiplier,
            slider_tick_rate,
        })
    }

    /// Reads the section from text.
    pub fn parse(s: &str) -> (r: Result<DifficultySection, BeatmapParseError>)
        ensures
            result_view(r) == DifficultySection::spec_parse(s@),
    {
        let c = chars_of(s);
        DifficultySection::parse_chars(&c)
    }

    /// Appends the canonical section to `buf`.
    pub fn write_to(&self, buf: &mut String)
        ensures
            final(buf)@ == old(buf)@ + DifficultySection::spec_text(self@),
    {
        let ghost start = buf@;
        write_decimal_field(buf, "HPDrainRate", &self.hp_drain_rate, false);
        let ghost mut written = field_text("HPDrainRate"@, decimal_text(self@.hp_drain_rate), self@.hp_drain_rate.digits == 0, false);
        write_decimal_field(buf, "CircleSize", &self.circle_size, false);
        proof {
            let line = field_text("CircleSize"@, decimal_text(self@.circle_size), self@.circle_size.digits == 0, false);
            lemma_concat_associative(start, written, line);
            written = written + line;
        }
        write_decimal_field(buf, "OverallDifficulty", &self.overall_difficulty, false);
        proof {
            let line = field_text("OverallDifficulty"@, decimal_text(self@.overall_difficulty), self@.overall_difficulty.digits == 0, false);
            lemma_concat_associative(start, written, line);
            written = written + line;
        }
        write_decimal_field(buf, "ApproachRate", &self.approach_rate, false);
        proof {
            let line = field_text("ApproachRate"@, decimal_text(self@.approach_rate), self@.approach_rate.digits == 0, false);
            lemma_concat_associative(start, written, line);
            written = written + line;
        }
        write_decimal_field(buf, "SliderMultiplier", &self.slider_multiplier, false);
        proof {
            let line = field_text("SliderMultiplier"@, decimal_text(self@.slider_multiplier), self@.slider_multiplier.digits == 0, false);
            lemma_concat_associative(start, written, line);
            written = written + line;
        }
        write_decimal_field(buf, "SliderTickRate", &self.slider_tick_rate, false);
        proof {
            let line = field_text("SliderTickRate"@, decimal_text(self@.slider_tick_rate), self@.slider_tick_rate.digits == 0, false);
            lemma_concat_associative(start, written, line);
            written = written + line;
        }
    }

    /// The canonical section.
    pub fn serialize(&self) -> (r: String)
        ensures
            r@ == DifficultySection::spec_text(self@),
    {
        let mut buf = String::new();
        self.write_to(&mut buf);
        buf
    }

    /// The canonical section.
    pub fn to_string(&self) -> (r: String)
        ensures
            r@ == DifficultySection::spec_text(self@),
    {
        self.serialize()
    }
}

} // verus!

//! The timing points section.
use vstd::prelude::*;
use crate::error::{invalid, result_view, BeatmapParseError, ParseFault};
use crate::number::{
    decimal_of, decimal_text, is_digit, law_decimal_round_trip, law_integer_round_trips,
    lemma_decimal_text_plain, lemma_digits_plain, lemma_nat_text, nat_text, parse_decimal,
    parse_u32, parse_u8, push_decimal, push_u64, u32_of, u8_of, Decimal,
};
use crate::section::CommaListElement;
use crate::text::{
    chars_of, fields_of, is_space, join, lemma_join_avoids, lemma_join_ends, lemma_join_push,
    lemma_split_join, lemma_trim_all_unchanged, lemma_trim_unchanged, line_shaped, piece,
    piece_at, split, trim, trim_all, views,
};
use crate::types::timing_points::Effects;
use crate::types::{bool_of, law_bool_round_trip, law_sample_set_round_trip, OsuBool, SampleSet};

verus! {

/// Representation of a timing point.
/// Each timing point influences a specified portion of the map, commonly called a "timing section".
#[derive(Clone, Copy, Debug, Default, PartialEq, Eq, Structural)]
pub struct TimingPoint {
    /// Start time of the timing section, in milliseconds from the beginning of the beatmap's audio.
    /// The end of the timing section is the next timing point's time (or never, if this is the last timing point).
    pub time: u32,
    /// This property has two meanings:
    /// - For uninherited timing points, the duration of a beat, in milliseconds.
    /// - For inherited timing points, a negative inverse slider velocity multiplier, as a percentage.
    pub beat_length: Decimal,
    /// Amount of beats in a measure. Inherited timing points ignore this property.
    pub meter: u32,
    /// Default sample set for hit objects
    pub sample_set: SampleSet,
    /// Custom sample index for hit objects.
    /// `0` indicates osu!'s default hitsounds.
    pub sample_index: u32,
    /// Volume percentage for hit objects.
    pub volume: u8,
    /// Whether or not the timing point is uninherited.
    pub is_uninherited: OsuBool,
    /// Bit flags that give the timing point extra effects.
    pub effects: Effects,
}

impl View for TimingPoint {
    type V = TimingPoint;

    open spec fn view(&self) -> TimingPoint {
        *self
    }
}

/// Piece `k` of `p` read by `read`, or a format error naming `name`.
pub open spec fn read_field<T>(
    p: Seq<Seq<char>>,
    k: int,
    name: Seq<char>,
    read: spec_fn(Seq<char>) -> Option<T>,
) -> Result<T, ParseFault> {
    match piece(p, k) {
        None => Err(ParseFault::InvalidFormat(name)),
        Some(t) => match read(t) {
            None => Err(ParseFault::InvalidFormat(name)),
            Some(x) => Ok(x),
        },
    }
}

impl TimingPoint {
    /// The timing point that the line `s` spells: eight fields separated by commas.
    pub open spec fn spec_parse(s: Seq<char>) -> Result<TimingPoint, ParseFault> {
        let p = trim_all(split(trim(s), ','));
        match read_field(p, 0, "time"@, |t: Seq<char>| u32_of(t)) {
            Err(e) => Err(e),
            Ok(time) => match read_field(p, 1, "beat_length"@, |t: Seq<char>| decimal_of(t)) {
                Err(e) => Err(e),
                Ok(beat_length) => match read_field(p, 2, "meter"@, |t: Seq<char>| u32_of(t)) {
                    Err(e) => Err(e),
                    Ok(meter) => match read_field(
                        p,
                        3,
                        "sample_set"@,
                        |t: Seq<char>|
                            match SampleSet::spec_parse(t) {
                                Ok(x) => Some(x),
                                Err(_) => None,
                            },
                    ) {
                        Err(e) => Err(e),
                        Ok(sample_set) => match read_field(
                            p,
                            4,
                            "sample_index"@,
                            |t: Seq<char>| u32_of(t),
                        ) {
                            Err(e) => Err(e),
                            Ok(sample_index) => match read_field(
                                p,
                                5,
                                "volume"@,
                                |t: Seq<char>| u8_of(t),
                            ) {
                                Err(e) => Err(e),
                                Ok(volume) => match read_field(
                                    p,
                                    6,
                                    "is_uninherited"@,
                                    |t: Seq<char>|
                                        match bool_of(t) {
                                            Some(b) => Some(OsuBool(b)),
                                            None => None,
                                        },
                                ) {
                                    Err(e) => Err(e),
                                    Ok(is_uninherited) => match read_field(
                                        p,
                                        7,
                                        "effects"@,
                                        |t: Seq<char>| u8_of(t),
                                    ) {
                                        Err(e) => Err(e),
                                        Ok(bits) => Ok(
                                            TimingPoint {
                                                time,
                                                beat_length,
                                                meter,
                                                sample_set,
                                                sample_index,
                                                volume,
                                                is_uninherited,
                                                effects: Effects { bits: bits & 5 },
                                            },
                                        ),
                                    },
                                },
                            },
                        },
                    },
                },
            },
        }
    }

    /// The canonical line: the eight fields separated by commas.
    pub open spec fn spec_text(v: TimingPoint) -> Seq<char> {
        nat_text(v.time as nat) + ","@ + decimal_text(v.beat_length) + ","@ + nat_text(
            v.meter as nat,
        ) + ","@ + v.sample_set.spec_text() + ","@ + nat_text(v.sample_index as nat) + ","@
            + nat_text(v.volume as nat) + ","@ + v.is_uninherited.spec_text() + ","@ + nat_text(
            v.effects.bits as nat,
        )
    }
}

fn u32_field(p: &Vec<Vec<char>>, k: usize, name: &str) -> (r: Result<u32, BeatmapParseError>)
    ensures
        result_view(r) == read_field(views(p@), k as int, name@, |t: Seq<char>| u32_of(t)),
{
    match piece_at(p, k) {
        None => Err(invalid(name)),
        Some(t) => match parse_u32(t) {
            None => Err(invalid(name)),
            Some(x) => Ok(x),
        },
    }
}

fn u8_field(p: &Vec<Vec<char>>, k: usize, name: &str) -> (r: Result<u8, BeatmapParseError>)
    ensures
        result_view(r) == read_field(views(p@), k as int, name@, |t: Seq<char>| u8_of(t)),
{
    match piece_at(p, k) {
        None => Err(invalid(name)),
        Some(t) => match parse_u8(t) {
            None => Err(invalid(name)),
            Some(x) => Ok(x),
        },
    }
}

impl CommaListElement for TimingPoint {
    open spec fn spec_parse(s: Seq<char>) -> Result<TimingPoint, ParseFault> {
        TimingPoint::spec_parse(s)
    }

    open spec fn spec_text(v: TimingPoint) -> Seq<char> {
        TimingPoint::spec_text(v)
    }

    fn parse_chars(s: &[char]) -> (r: Result<TimingPoint, BeatmapParseError>) {
        let p = fields_of(s, ',');
        let time = match u32_field(&p, 0, "time") {
            Err(e) => {
                return Err(e);
            },
            Ok(v) => v,
        };
        let beat_length = match piece_at(&p, 1) {
            None => {
                return Err(invalid("beat_length"));
            },
            Some(t) => match parse_decimal(t) {
                None => {
                    return Err(invalid("beat_length"));
                },
                Some(v) => v,
            },
        };
        let meter = match u32_field(&p, 2, "meter") {
            Err(e) => {
                return Err(e);
            },
            Ok(v) => v,
        };
        let sample_set = match piece_at(&p, 3) {
            None => {
                return Err(invalid("sample_set"));
            },
            Some(t) => match SampleSet::parse_chars(t) {
                Err(_) => {
                    return Err(invalid("sample_set"));
                },
                Ok(v) => v,
            },
        };
        let sample_index = match u32_field(&p, 4, "sample_index") {
            Err(e) => {
                return Err(e);
            },
            Ok(v) => v,
        };
        let volume = match u8_field(&p, 5, "volume") {
            Err(e) => {
                return Err(e);
            },
            Ok(v) => v,
        };
        let is_uninherited = match piece_at(&p, 6) {
            None => {
                return Err(invalid("is_uninherited"));
            },
            Some(t) => match OsuBool::parse_chars(t) {
                Err(_) => {
                    return Err(invalid("is_uninherited"));
                },
                Ok(v) => v,
            },
        };
        let bits = match u8_field(&p, 7, "effects") {
            Err(e) => {
                return Err(e);
            },
            Ok(v) => v,
        };
        Ok(
            TimingPoint {
                time,
                beat_length,
                meter,
                sample_set,
                sample_index,
                volume,
                is_uninherited,
                effects: Effects::from_bits_truncate(bits),
            },
        )
    }

    fn write_to(&self, buf: &mut String) {
        push_u64(buf, self.time as u64);
        buf.append(",");
        push_decimal(buf, &self.beat_length);
        buf.append(",");
        push_u64(buf, self.meter as u64);
        buf.append(",");
        self.sample_set.write_to(buf);
        buf.append(",");
        proof {
            assert(buf@ =~= old(buf)@ + (nat_text(self.time as nat) + ","@ + decimal_text(
                self.beat_length,
            ) + ","@ + nat_text(self.meter as nat) + ","@ + self.sample_set.spec_text() + ","@));
        }
        let ghost mid = buf@;
        push_u64(buf, self.sample_index as u64);
        buf.append(",");
        push_u64(buf, self.volume as u64);
        buf.append(",");
        self.is_uninherited.write_to(buf);
        buf.append(",");
        push_u64(buf, self.effects.bits as u64);
        proof {
            assert(buf@ =~= mid + (nat_text(self.sample_index as nat) + ","@ + nat_text(
                self.volume as nat,
            ) + ","@ + self.is_uninherited.spec_text() + ","@ + nat_text(
                self.effects.bits as nat,
            )));
            assert(buf@ =~= old(buf)@ + TimingPoint::spec_text(*self));
        }
    }
}

impl TimingPoint {
    /// Parses one line.
    pub fn parse(s: &str) -> (r: Result<TimingPoint, BeatmapParseError>)
        ensures
            result_view(r) == TimingPoint::spec_parse(s@),
    {
        let c = chars_of(s);
        <TimingPoint as CommaListElement>::parse_chars(&c)
    }

    /// The canonical line.
    pub fn serialize(&self) -> (r: String)
        ensures
            r@ == TimingPoint::spec_text(*self),
    {
        let mut buf = String::new();
        self.write_to(&mut buf);
        buf
    }
}

impl TimingPoint {
    /// The beat length is in canonical form and only known effect bits are set.
    pub open spec fn wf(self) -> bool {
        self.beat_length.wf() && self.effects.bits & 5 == self.effects.bits
    }

    /// The eight fields of the canonical line of `v`, in order.
    pub open spec fn spec_fields(v: TimingPoint) -> Seq<Seq<char>> {
        seq![
            nat_text(v.time as nat),
            decimal_text(v.beat_length),
            nat_text(v.meter as nat),
            v.sample_set.spec_text(),
            nat_text(v.sample_index as nat),
            nat_text(v.volume as nat),
            v.is_uninherited.spec_text(),
            nat_text(v.effects.bits as nat),
        ]
    }
}

proof fn lemma_fields_joined(v: TimingPoint)
    ensures
        TimingPoint::spec_text(v) == join(TimingPoint::spec_fields(v), seq![',']),
{
    reveal_strlit(",");
    let f = TimingPoint::spec_fields(v);
    assert(join(f.subrange(0, 1), seq![',']) == f[0]);
    lemma_join_push(f.subrange(0, 1), f[1], seq![',']);
    assert(f.subrange(0, 1).push(f[1]) =~= f.subrange(0, 2));
    lemma_join_push(f.subrange(0, 2), f[2], seq![',']);
    assert(f.subrange(0, 2).push(f[2]) =~= f.subrange(0, 3));
    lemma_join_push(f.subrange(0, 3), f[3], seq![',']);
    assert(f.subrange(0, 3).push(f[3]) =~= f.subrange(0, 4));
    lemma_join_push(f.subrange(0, 4), f[4], seq![',']);
    assert(f.subrange(0, 4).push(f[4]) =~= f.subrange(0, 5));
    lemma_join_push(f.subrange(0, 5), f[5], seq![',']);
    assert(f.subrange(0, 5).push(f[5]) =~= f.subrange(0, 6));
    lemma_join_push(f.subrange(0, 6), f[6], seq![',']);
    assert(f.subrange(0, 6).push(f[6]) =~= f.subrange(0, 7));
    lemma_join_push(f.subrange(0, 7), f[7], seq![',']);
    assert(f.subrange(0, 7).push(f[7]) =~= f.subrange(0, 8));
    assert(f.subrange(0, 8) =~= f);
    assert(TimingPoint::spec_text(v) =~= join(f, seq![',']));
}

proof fn lemma_field_plain(t: Seq<char>)
    requires
        t.len() > 0,
        forall|i: int| 0 <= i < t.len() ==> !is_space(#[trigger] t[i]) && t[i] != ',' && t[i]
            != '\n',
    ensures
        line_shaped(t),
{
}

/// A timing point in canonical form reads back from its line, and that line
/// can stand in a list.
pub proof fn law_timing_point_round_trip(v: TimingPoint)
    requires
        v.wf(),
    ensures
        TimingPoint::spec_parse(TimingPoint::spec_text(v)) == Ok::<TimingPoint, ParseFault>(v),
        line_shaped(TimingPoint::spec_text(v)),
{
    let f = TimingPoint::spec_fields(v);
    lemma_fields_joined(v);
    law_integer_round_trips(v.volume, v.time, 0);
    law_integer_round_trips(v.effects.bits, v.meter, 0);
    law_integer_round_trips(0, v.sample_index, 0);
    law_decimal_round_trip(v.beat_length);
    law_sample_set_round_trip(v.sample_set);
    law_bool_round_trip(v.is_uninherited);
    lemma_nat_text(v.time as nat);
    lemma_nat_text(v.meter as nat);
    lemma_nat_text(v.sample_set.index());
    lemma_nat_text(v.sample_index as nat);
    lemma_nat_text(v.volume as nat);
    lemma_nat_text(v.effects.bits as nat);
    lemma_digits_plain(nat_text(v.time as nat));
    lemma_digits_plain(nat_text(v.meter as nat));
    lemma_digits_plain(nat_text(v.sample_set.index()));
    lemma_digits_plain(nat_text(v.sample_index as nat));
    lemma_digits_plain(nat_text(v.volume as nat));
    lemma_digits_plain(nat_text(v.effects.bits as nat));
    lemma_decimal_text_plain(v.beat_length);
    reveal_strlit("0");
    reveal_strlit("1");
    assert(('0' as u32) == 48 && ('1' as u32) == 49 && (',' as u32) == 44);
    assert(v.is_uninherited.spec_text().len() == 1);
    assert(is_digit(v.is_uninherited.spec_text()[0]));
    lemma_digits_plain(v.is_uninherited.spec_text());
    assert forall|i: int| 0 <= i < f.len() implies line_shaped(#[trigger] f[i]) && (forall|j: int|
        0 <= j < f[i].len() ==> f[i][j] != ',') by {
        lemma_field_plain(f[i]);
    }
    assert forall|i: int, j: int| 0 <= i < f.len() && 0 <= j < f[i].len() implies f[i][j]
        != ',' by {
        assert(line_shaped(f[i]) && (forall|m: int| 0 <= m < f[i].len() ==> f[i][m] != ','));
    }
    assert forall|i: int, j: int| 0 <= i < f.len() && 0 <= j < f[i].len() implies f[i][j]
        != '\n' by {
        assert(line_shaped(f[i]));
    }
    lemma_join_ends(f, seq![',']);
    lemma_join_avoids(f, seq![','], '\n');
    let text = join(f, seq![',']);
    assert(f[0][0] == text[0]);
    assert(f.last() == f[7]);
    assert(line_shaped(f[0]) && line_shaped(f[7]));
    lemma_trim_unchanged(text);
    lemma_split_join(f, ',');
    lemma_trim_all_unchanged(f);
    assert(trim_all(split(trim(text), ',')) == f);
    assert(Effects { bits: v.effects.bits & 5 } == v.effects);
}

/// A timing points section reads back from its canonical text.
pub proof fn law_timing_points_round_trip(v: Seq<TimingPoint>)
    requires
        forall|i: int| 0 <= i < v.len() ==> (#[trigger] v[i]).wf(),
    ensures
        crate::section::parse_lines::<TimingPoint>(
            crate::text::lines(crate::section::list_text::<TimingPoint>(v)),
        ) == Ok::<Seq<TimingPoint>, ParseFault>(v),
{
    assert forall|i: int| 0 <= i < v.len() implies TimingPoint::spec_parse(
        TimingPoint::spec_text(#[trigger] v[i]),
    ) == Ok::<TimingPoint, ParseFault>(v[i]) && line_shaped(TimingPoint::spec_text(v[i])) by {
        law_timing_point_round_trip(v[i]);
    }
    crate::section::law_list_round_trip::<TimingPoint>(v);
}

proof fn lemma_parsed_point_wf(s: Seq<char>)
    requires
        TimingPoint::spec_parse(s) is Ok,
    ensures
        TimingPoint::spec_parse(s)->Ok_0.wf(),
{
    let p = trim_all(split(trim(s), ','));
    let v = TimingPoint::spec_parse(s)->Ok_0;
    assert(decimal_of(p[1]) == Some(v.beat_length));
    crate::number::lemma_decimal_of_wf(p[1]);
    let b = u8_of(p[7])->Some_0;
    assert(v.effects.bits == b & 5);
    assert((b & 5) & 5 == b & 5) by (bit_vector);
}

proof fn lemma_parsed_points_wf(ls: Seq<Seq<char>>)
    requires
        crate::section::parse_lines::<TimingPoint>(ls) is Ok,
    ensures
        forall|i: int|
            0 <= i < crate::section::parse_lines::<TimingPoint>(ls)->Ok_0.len() ==> (
            #[trigger] crate::section::parse_lines::<TimingPoint>(ls)->Ok_0[i]).wf(),
    decreases ls.len(),
{
    if ls.len() > 0 {
        lemma_parsed_points_wf(ls.drop_last());
        if TimingPoint::spec_parse(ls.last()) is Ok {
            lemma_parsed_point_wf(ls.last());
        }
    }
}

/// Parsing a timing points section, writing it, and parsing the text again
/// gives the first parse, whatever spacing or trailing zeros the first text had.
pub proof fn law_timing_points_idempotent(s: Seq<char>)
    requires
        crate::section::parse_lines::<TimingPoint>(crate::text::lines(s)) is Ok,
    ensures
        crate::section::parse_lines::<TimingPoint>(
            crate::text::lines(
                crate::section::list_text::<TimingPoint>(
                    crate::section::parse_lines::<TimingPoint>(crate::text::lines(s))->Ok_0,
                ),
            ),
        ) == crate::section::parse_lines::<TimingPoint>(crate::text::lines(s)),
{
    lemma_parsed_points_wf(crate::text::lines(s));
    law_timing_points_round_trip(
        crate::section::parse_lines::<TimingPoint>(crate::text::lines(s))->Ok_0,
    );
}

} // verus!

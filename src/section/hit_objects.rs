//! The hit objects section: gameplay objects whose layout depends on the
//! shape bits of their type field.
use vstd::prelude::*;
use crate::error::{invalid, result_view, BeatmapParseError, ParseFault};
use crate::number::{
    is_digit, law_integer_round_trips, lemma_digits_plain, lemma_nat_text, decimal_of, decimal_text, i32_of, int_text, nat_text, parse_decimal, parse_i32, parse_u32,
    parse_u8, push_decimal, push_i32, push_u64, u32_of, u8_of, Decimal,
};
use crate::section::CommaListElement;
use crate::text::{
    is_space, join, lemma_splitn_joined, lemma_join_avoids, lemma_join_push, lemma_split_join, lemma_trim_empty,
    lemma_trim_unchanged, chars_of, fields_of, lemma_split_nonempty, piece, piece_at, rsplit_once, rsplit_once_chars,
    split, split_chars, split_once, split_once_chars, splitn, splitn_chars, string_of, trim,
    trim_all, trim_chars, trim_each, views,
};
use crate::types::SampleSet;

verus! {

/// A control point of a slider path.
#[derive(Clone, Copy, Debug, Default, PartialEq, Eq, Structural)]
pub struct SliderPoint {
    pub x: i32,
    pub y: i32,
}

impl View for SliderPoint {
    type V = SliderPoint;

    open spec fn view(&self) -> SliderPoint {
        *self
    }
}

impl SliderPoint {
    /// The point that `s` spells: `x:y`, with white space allowed around each part.
    pub open spec fn spec_parse(s: Seq<char>) -> Option<SliderPoint> {
        let p = trim_all(split(trim(s), ':'));
        if p.len() < 2 {
            None
        } else {
            match (i32_of(p[0]), i32_of(p[1])) {
                (Some(x), Some(y)) => Some(SliderPoint { x, y }),
                _ => None,
            }
        }
    }

    /// The canonical spelling, `x:y`.
    pub open spec fn spec_text(self) -> Seq<char> {
        int_text(self.x as int) + ":"@ + int_text(self.y as int)
    }

    /// Reads a point from characters.
    pub fn parse_chars(s: &[char]) -> (r: Option<SliderPoint>)
        ensures
            r == SliderPoint::spec_parse(s@),
    {
        let p = fields_of(s, ':');
        if p.len() < 2 {
            return None;
        }
        match (parse_i32(&p[0]), parse_i32(&p[1])) {
            (Some(x), Some(y)) => Some(SliderPoint { x, y }),
            _ => None,
        }
    }

    /// Reads a point from text.
    pub fn from_str(s: &str) -> (r: Option<SliderPoint>)
        ensures
            r == SliderPoint::spec_parse(s@),
    {
        let c = chars_of(s);
        SliderPoint::parse_chars(&c)
    }

    /// Appends the canonical spelling to `buf`.
    pub fn write_to(&self, buf: &mut String)
        ensures
            final(buf)@ == old(buf)@ + self.spec_text(),
    {
        push_i32(buf, self.x);
        buf.append(":");
        push_i32(buf, self.y);
        proof {
            assert(buf@ =~= old(buf)@ + self.spec_text());
        }
    }
}

/// The numbers that the pieces `p` spell, if each spells a `u32`.
pub open spec fn u32s_of(p: Seq<Seq<char>>) -> Option<Seq<u32>>
    decreases p.len(),
{
    if p.len() == 0 {
        Some(Seq::empty())
    } else {
        match (u32s_of(p.drop_last()), u32_of(p.last())) {
            (Some(v), Some(n)) => Some(v.push(n)),
            _ => None,
        }
    }
}

/// The pairs that the pieces `p` spell, each as `a:b`, if each does.
pub open spec fn pairs_of(p: Seq<Seq<char>>) -> Option<Seq<(u32, u32)>>
    decreases p.len(),
{
    if p.len() == 0 {
        Some(Seq::empty())
    } else {
        match (pairs_of(p.drop_last()), split_once(p.last(), ':')) {
            (Some(v), Some((a, b))) => match (u32_of(a), u32_of(b)) {
                (Some(x), Some(y)) => Some(v.push((x, y))),
                _ => None,
            },
            _ => None,
        }
    }
}

/// The numbers of `v`, separated by `|`.
pub open spec fn u32s_text(v: Seq<u32>) -> Seq<char>
    decreases v.len(),
{
    if v.len() == 0 {
        Seq::empty()
    } else if v.len() == 1 {
        nat_text(v[0] as nat)
    } else {
        u32s_text(v.drop_last()) + "|"@ + nat_text(v.last() as nat)
    }
}

/// The pairs of `v`, each as `a:b`, separated by `|`.
pub open spec fn pairs_text(v: Seq<(u32, u32)>) -> Seq<char>
    decreases v.len(),
{
    if v.len() == 0 {
        Seq::empty()
    } else if v.len() == 1 {
        nat_text(v[0].0 as nat) + ":"@ + nat_text(v[0].1 as nat)
    } else {
        pairs_text(v.drop_last()) + "|"@ + nat_text(v.last().0 as nat) + ":"@ + nat_text(
            v.last().1 as nat,
        )
    }
}

/// The model of [`EdgeSounds`].
pub struct EdgeSoundsView {
    pub sounds: Seq<u32>,
    pub sets: Seq<(u32, u32)>,
}

/// The sounds and sample sets played on the edges of a slider.
#[derive(Clone, Debug, Default, PartialEq, Eq)]
pub struct EdgeSounds {
    pub sounds: Vec<u32>,
    pub sets: Vec<(u32, u32)>,
}

impl View for EdgeSounds {
    type V = EdgeSoundsView;

    open spec fn view(&self) -> EdgeSoundsView {
        EdgeSoundsView { sounds: self.sounds@, sets: self.sets@ }
    }
}

impl EdgeSounds {
    /// The edge sounds that `s` spells: sound ids separated by `|`, a comma,
    /// then `set:set` pairs separated by `|`.
    pub open spec fn spec_parse(s: Seq<char>) -> Option<EdgeSoundsView> {
        match split_once(trim(s), ',') {
            None => None,
            Some((a, b)) => match (u32s_of(split(a, '|')), pairs_of(split(b, '|'))) {
                (Some(sounds), Some(sets)) => Some(EdgeSoundsView { sounds, sets }),
                _ => None,
            },
        }
    }

    /// The canonical spelling.
    pub open spec fn spec_text(v: EdgeSoundsView) -> Seq<char> {
        u32s_text(v.sounds) + ","@ + pairs_text(v.sets)
    }

    /// Reads edge sounds from characters.
    pub fn parse_chars(s: &[char]) -> (r: Option<EdgeSounds>)
        ensures
            match r {
                None => EdgeSounds::spec_parse(s@) is None,
                Some(e) => EdgeSounds::spec_parse(s@) == Some(e@),
            },
    {
        let t = crate::text::trim_chars(s);
        let (a, b) = match split_once_chars(&t, ',') {
            None => {
                return None;
            },
            Some(p) => p,
        };
        let sp = split_chars(&a, '|');
        let ghost spv = views(sp@);
        let mut sounds: Vec<u32> = Vec::new();
        let mut i: usize = 0;
        proof {
            assert(spv.subrange(0, 0) =~= Seq::<Seq<char>>::empty());
        }
        while i < sp.len()
            invariant
                i <= sp@.len(),
                spv == views(sp@),
                spv == split(a@, '|'),
                split_once(trim(s@), ',') == Some((a@, b@)),
                u32s_of(spv.subrange(0, i as int)) == Some(sounds@),
            decreases sp.len() - i,
        {
            proof {
                assert(spv.subrange(0, i + 1).drop_last() =~= spv.subrange(0, i as int));
                assert(spv.subrange(0, i + 1).last() == sp@[i as int]@);
            }
            match parse_u32(&sp[i]) {
                None => {
                    proof {
                        lemma_u32s_none(spv, i + 1);
                    }
                    return None;
                },
                Some(n) => sounds.push(n),
            }
            i += 1;
        }
        let st = split_chars(&b, '|');
        let ghost stv = views(st@);
        let mut sets: Vec<(u32, u32)> = Vec::new();
        let mut j: usize = 0;
        proof {
            assert(spv.subrange(0, sp@.len() as int) =~= spv);
            assert(stv.subrange(0, 0) =~= Seq::<Seq<char>>::empty());
        }
        while j < st.len()
            invariant
                j <= st@.len(),
                stv == views(st@),
                stv == split(b@, '|'),
                split_once(trim(s@), ',') == Some((a@, b@)),
                u32s_of(split(a@, '|')) == Some(sounds@),
                pairs_of(stv.subrange(0, j as int)) == Some(sets@),
            decreases st.len() - j,
        {
            proof {
                assert(stv.subrange(0, j + 1).drop_last() =~= stv.subrange(0, j as int));
                assert(stv.subrange(0, j + 1).last() == st@[j as int]@);
            }
            let pair = match split_once_chars(&st[j], ':') {
                None => None,
                Some((x, y)) => match (parse_u32(&x), parse_u32(&y)) {
                    (Some(m), Some(n)) => Some((m, n)),
                    _ => None,
                },
            };
            match pair {
                None => {
                    proof {
                        lemma_pairs_none(stv, j + 1);
                    }
                    return None;
                },
                Some(q) => sets.push(q),
            }
            j += 1;
        }
        proof {
            assert(stv.subrange(0, st@.len() as int) =~= stv);
        }
        Some(EdgeSounds { sounds, sets })
    }

    /// Reads edge sounds from text.
    pub fn from_str(s: &str) -> (r: Option<EdgeSounds>)
        ensures
            match r {
                None => EdgeSounds::spec_parse(s@) is None,
                Some(e) => EdgeSounds::spec_parse(s@) == Some(e@),
            },
    {
        let c = chars_of(s);
        EdgeSounds::parse_chars(&c)
    }

    /// Appends the canonical spelling to `buf`.
    pub fn write_to(&self, buf: &mut String)
        ensures
            final(buf)@ == old(buf)@ + EdgeSounds::spec_text(self@),
    {
        let ghost start = buf@;
        let mut i: usize = 0;
        while i < self.sounds.len()
            invariant
                i <= self.sounds@.len(),
                buf@ == start + u32s_text(self.sounds@.subrange(0, i as int)),
            decreases self.sounds.len() - i,
        {
            if i > 0 {
                buf.append("|");
            }
            push_u64(buf, self.sounds[i] as u64);
            proof {
                let v = self.sounds@.subrange(0, i + 1);
                assert(v.drop_last() =~= self.sounds@.subrange(0, i as int));
                if i == 0 {
                    assert(self.sounds@.subrange(0, 0) =~= Seq::<u32>::empty());
                }
                assert(buf@ =~= start + u32s_text(v));
            }
            i += 1;
        }
        proof {
            assert(self.sounds@.subrange(0, self.sounds@.len() as int) =~= self.sounds@);
        }
        buf.append(",");
        let ghost mid = buf@;
        let mut j: usize = 0;
        while j < self.sets.len()
            invariant
                j <= self.sets@.len(),
                buf@ == mid + pairs_text(self.sets@.subrange(0, j as int)),
            decreases self.sets.len() - j,
        {
            if j > 0 {
                buf.append("|");
            }
            let (a, b) = self.sets[j];
            push_u64(buf, a as u64);
            buf.append(":");
            push_u64(buf, b as u64);
            proof {
                let v = self.sets@.subrange(0, j + 1);
                assert(v.drop_last() =~= self.sets@.subrange(0, j as int));
                if j == 0 {
                    assert(self.sets@.subrange(0, 0) =~= Seq::<(u32, u32)>::empty());
                }
                assert(buf@ =~= mid + pairs_text(v));
            }
            j += 1;
        }
        proof {
            assert(self.sets@.subrange(0, self.sets@.len() as int) =~= self.sets@);
            assert(buf@ =~= start + EdgeSounds::spec_text(self@));
        }
    }

    /// The canonical spelling.
    pub fn to_string(&self) -> (r: String)
        ensures
            r@ == EdgeSounds::spec_text(self@),
    {
        let mut buf = String::new();
        self.write_to(&mut buf);
        buf
    }
}

proof fn lemma_u32s_none(p: Seq<Seq<char>>, k: int)
    requires
        0 <= k <= p.len(),
        u32s_of(p.subrange(0, k)) is None,
    ensures
        u32s_of(p) is None,
    decreases p.len(),
{
    if k == p.len() {
        assert(p.subrange(0, k) =~= p);
    } else {
        assert(p.drop_last().subrange(0, k) =~= p.subrange(0, k));
        lemma_u32s_none(p.drop_last(), k);
    }
}

proof fn lemma_pairs_none(p: Seq<Seq<char>>, k: int)
    requires
        0 <= k <= p.len(),
        pairs_of(p.subrange(0, k)) is None,
    ensures
        pairs_of(p) is None,
    decreases p.len(),
{
    if k == p.len() {
        assert(p.subrange(0, k) =~= p);
    } else {
        assert(p.drop_last().subrange(0, k) =~= p.subrange(0, k));
        lemma_pairs_none(p.drop_last(), k);
    }
}

/// The curve type of a slider, written as one letter.
#[derive(Clone, Copy, Debug, PartialEq, Eq, Structural)]
pub enum SliderType {
    Bezier,
    CentripetalCatmullRom,
    Linear,
    PerfectCircle,
}

impl View for SliderType {
    type V = SliderType;

    open spec fn view(&self) -> SliderType {
        *self
    }
}

impl SliderType {
    /// The letter that stands for this curve type.
    pub open spec fn letter(self) -> char {
        match self {
            SliderType::Bezier => 'B',
            SliderType::CentripetalCatmullRom => 'C',
            SliderType::Linear => 'L',
            SliderType::PerfectCircle => 'P',
        }
    }

    /// The curve type that the letter `c` stands for.
    pub open spec fn of_letter(c: char) -> Option<SliderType> {
        if c == 'B' {
            Some(SliderType::Bezier)
        } else if c == 'C' {
            Some(SliderType::CentripetalCatmullRom)
        } else if c == 'L' {
            Some(SliderType::Linear)
        } else if c == 'P' {
            Some(SliderType::PerfectCircle)
        } else {
            None
        }
    }

    /// The curve type that `s` spells: exactly one of its letters.
    pub open spec fn spec_parse(s: Seq<char>) -> Option<SliderType> {
        if s.len() == 1 {
            SliderType::of_letter(s[0])
        } else {
            None
        }
    }

    /// The curve type that the letter `c` stands for.
    pub fn try_from_char(c: char) -> (r: Option<SliderType>)
        ensures
            r == SliderType::of_letter(c),
    {
        match c {
            'B' => Some(SliderType::Bezier),
            'C' => Some(SliderType::CentripetalCatmullRom),
            'L' => Some(SliderType::Linear),
            'P' => Some(SliderType::PerfectCircle),
            _ => None,
        }
    }

    /// The letter that stands for this curve type.
    pub fn to_char(&self) -> (c: char)
        ensures
            c == self.letter(),
    {
        match self {
            SliderType::Bezier => 'B',
            SliderType::CentripetalCatmullRom => 'C',
            SliderType::Linear => 'L',
            SliderType::PerfectCircle => 'P',
        }
    }

    /// Reads a curve type from characters.
    pub fn parse_chars(s: &[char]) -> (r: Option<SliderType>)
        ensures
            r == SliderType::spec_parse(s@),
    {
        if s.len() == 1 {
            SliderType::try_from_char(s[0])
        } else {
            None
        }
    }

    /// Reads a curve type from text.
    pub fn from_str(s: &str) -> (r: Option<SliderType>)
        ensures
            r == SliderType::spec_parse(s@),
    {
        let c = chars_of(s);
        SliderType::parse_chars(&c)
    }

    /// The letter, as text.
    pub fn to_string(&self) -> (r: String)
        ensures
            r@ == seq![self.letter()],
    {
        let mut buf = String::new();
        crate::text::push_char(&mut buf, self.to_char());
        buf
    }
}

impl Default for SliderType {
    fn default() -> (r: SliderType)
        ensures
            r == SliderType::Linear,
    {
        SliderType::Linear
    }
}

/// The model of [`HitSample`].
pub struct HitSampleView {
    pub normal_set: SampleSet,
    pub additional_set: SampleSet,
    pub index: u32,
    pub volume: u8,
    pub filename: Seq<char>,
}

/// The samples an object plays when it is hit.
#[derive(Clone, Debug, Default, PartialEq, Eq)]
pub struct HitSample {
    pub normal_set: SampleSet,
    pub additional_set: SampleSet,
    pub index: u32,
    pub volume: u8,
    pub filename: String,
}

impl View for HitSample {
    type V = HitSampleView;

    open spec fn view(&self) -> HitSampleView {
        HitSampleView {
            normal_set: self.normal_set,
            additional_set: self.additional_set,
            index: self.index,
            volume: self.volume,
            filename: self.filename@,
        }
    }
}

/// The model of a hit sample whose fields all take their defaults.
pub open spec fn default_hit_sample() -> HitSampleView {
    HitSampleView {
        normal_set: SampleSet::Default,
        additional_set: SampleSet::Default,
        index: 0,
        volume: 0,
        filename: Seq::empty(),
    }
}

impl HitSample {
    /// The hit sample that `s` spells: five parts separated by `:`, the sets,
    /// the index, the volume and the file name.
    pub open spec fn spec_parse(s: Seq<char>) -> Result<HitSampleView, ParseFault> {
        let p = trim_all(split(trim(s), ':'));
        match piece(p, 0) {
            None => Err(ParseFault::InvalidFormat("normal_set"@)),
            Some(t0) => match SampleSet::spec_parse(t0) {
                Err(_) => Err(ParseFault::InvalidFormat("normal_set"@)),
                Ok(normal_set) => match piece(p, 1) {
                    None => Err(ParseFault::InvalidFormat("additional_set"@)),
                    Some(t1) => match SampleSet::spec_parse(t1) {
                        Err(_) => Err(ParseFault::InvalidFormat("additional_set"@)),
                        Ok(additional_set) => match piece(p, 2) {
                            None => Err(ParseFault::InvalidFormat("index"@)),
                            Some(t2) => match u32_of(t2) {
                                None => Err(ParseFault::InvalidFormat("index"@)),
                                Some(index) => match piece(p, 3) {
                                    None => Err(ParseFault::InvalidFormat("volume"@)),
                                    Some(t3) => match u8_of(t3) {
                                        None => Err(ParseFault::InvalidFormat("volume"@)),
                                        Some(volume) => match piece(p, 4) {
                                            None => Err(ParseFault::InvalidFormat("filename"@)),
                                            Some(filename) => Ok(
                                                HitSampleView {
                                                    normal_set,
                                                    additional_set,
                                                    index,
                                                    volume,
                                                    filename,
                                                },
                                            ),
                                        },
                                    },
                                },
                            },
                        },
                    },
                },
            },
        }
    }

    /// The canonical spelling, `normal:additional:index:volume:filename`.
    pub open spec fn spec_text(v: HitSampleView) -> Seq<char> {
        v.normal_set.spec_text() + ":"@ + v.additional_set.spec_text() + ":"@ + nat_text(
            v.index as nat,
        ) + ":"@ + nat_text(v.volume as nat) + ":"@ + v.filename
    }

    /// A hit sample whose fields all take their defaults.
    pub fn new() -> (r: HitSample)
        ensures
            r@ == default_hit_sample(),
    {
        HitSample {
            normal_set: SampleSet::Default,
            additional_set: SampleSet::Default,
            index: 0,
            volume: 0,
            filename: String::new(),
        }
    }

    /// Reads a hit sample from characters.
    pub fn parse_chars(s: &[char]) -> (r: Result<HitSample, BeatmapParseError>)
        ensures
            result_view(r) == HitSample::spec_parse(s@),
    {
        let p = fields_of(s, ':');
        let normal_set = match piece_at(&p, 0) {
            None => {
                return Err(invalid("normal_set"));
            },
            Some(t) => match SampleSet::parse_chars(t) {
                Err(_) => {
                    return Err(invalid("normal_set"));
                },
                Ok(v) => v,
            },
        };
        let additional_set = match piece_at(&p, 1) {
            None => {
                return Err(invalid("additional_set"));
            },
            Some(t) => match SampleSet::parse_chars(t) {
                Err(_) => {
                    return Err(invalid("additional_set"));
                },
                Ok(v) => v,
            },
        };
        let index = match piece_at(&p, 2) {
            None => {
                return Err(invalid("index"));
            },
            Some(t) => match parse_u32(t) {
                None => {
                    return Err(invalid("index"));
                },
                Some(v) => v,
            },
        };
        let volume = match piece_at(&p, 3) {
            None => {
                return Err(invalid("volume"));
            },
            Some(t) => match parse_u8(t) {
                None => {
                    return Err(invalid("volume"));
                },
                Some(v) => v,
            },
        };
        let filename = match piece_at(&p, 4) {
            None => {
                return Err(invalid("filename"));
            },
            Some(t) => string_of(t),
        };
        Ok(HitSample { normal_set, additional_set, index, volume, filename })
    }

    /// Reads a hit sample from text.
    pub fn from_str(s: &str) -> (r: Result<HitSample, BeatmapParseError>)
        ensures
            result_view(r) == HitSample::spec_parse(s@),
    {
        let c = chars_of(s);
        HitSample::parse_chars(&c)
    }

    /// Appends the canonical spelling to `buf`.
    pub fn write_to(&self, buf: &mut String)
        ensures
            final(buf)@ == old(buf)@ + HitSample::spec_text(self@),
    {
        self.normal_set.write_to(buf);
        buf.append(":");
        self.additional_set.write_to(buf);
        buf.append(":");
        push_u64(buf, self.index as u64);
        buf.append(":");
        push_u64(buf, self.volume as u64);
        buf.append(":");
        buf.append(self.filename.as_str());
        proof {
            assert(buf@ =~= old(buf)@ + HitSample::spec_text(self@));
        }
    }

    /// The canonical spelling.
    pub fn to_string(&self) -> (r: String)
        ensures
            r@ == HitSample::spec_text(self@),
    {
        let mut buf = String::new();
        self.write_to(&mut buf);
        buf
    }
}

/// The points that the pieces `p` spell, if each spells one.
pub open spec fn points_of(p: Seq<Seq<char>>) -> Option<Seq<SliderPoint>>
    decreases p.len(),
{
    if p.len() == 0 {
        Some(Seq::empty())
    } else {
        match (points_of(p.drop_last()), SliderPoint::spec_parse(p.last())) {
            (Some(v), Some(x)) => Some(v.push(x)),
            _ => None,
        }
    }
}

/// Each point of `v`, after a `|`.
pub open spec fn points_text(v: Seq<SliderPoint>) -> Seq<char>
    decreases v.len(),
{
    if v.len() == 0 {
        Seq::empty()
    } else {
        points_text(v.drop_last()) + "|"@ + v.last().spec_text()
    }
}

proof fn lemma_points_none(p: Seq<Seq<char>>, k: int)
    requires
        0 <= k <= p.len(),
        points_of(p.subrange(0, k)) is None,
    ensures
        points_of(p) is None,
    decreases p.len(),
{
    if k == p.len() {
        assert(p.subrange(0, k) =~= p);
    } else {
        assert(p.drop_last().subrange(0, k) =~= p.subrange(0, k));
        lemma_points_none(p.drop_last(), k);
    }
}

/// The model of [`SliderParams`].
pub struct SliderParamsView {
    pub slider_type: SliderType,
    pub curve_points: Seq<SliderPoint>,
    pub slides: u32,
    pub length: Decimal,
    pub edge_sounds: EdgeSoundsView,
}

/// The fields of a slider: its path, how often it repeats, its length and
/// its edge sounds.
#[derive(Clone, Debug, Default, PartialEq)]
pub struct SliderParams {
    pub slider_type: SliderType,
    pub curve_points: Vec<SliderPoint>,
    pub slides: u32,
    pub length: Decimal,
    pub edge_sounds: EdgeSounds,
}

impl View for SliderParams {
    type V = SliderParamsView;

    open spec fn view(&self) -> SliderParamsView {
        SliderParamsView {
            slider_type: self.slider_type,
            curve_points: self.curve_points@,
            slides: self.slides,
            length: self.length,
            edge_sounds: self.edge_sounds@,
        }
    }
}

impl SliderParams {
    /// The slider fields that `s` spells: the curve type and the points
    /// separated by `|`, then the slides, the length and the edge sounds
    /// separated by commas.
    pub open spec fn spec_parse(s: Seq<char>) -> Option<SliderParamsView> {
        let p = trim_all(splitn(trim(s), 4, ','));
        if p.len() < 4 {
            None
        } else {
            let tp = split(p[0], '|');
            match (
                SliderType::spec_parse(tp[0]),
                points_of(tp.subrange(1, tp.len() as int)),
                u32_of(p[1]),
                decimal_of(p[2]),
                EdgeSounds::spec_parse(p[3]),
            ) {
                (Some(slider_type), Some(curve_points), Some(slides), Some(length), Some(
                    edge_sounds,
                )) => Some(SliderParamsView { slider_type, curve_points, slides, length, edge_sounds }),
                _ => None,
            }
        }
    }

    /// The canonical spelling.
    pub open spec fn spec_text(v: SliderParamsView) -> Seq<char> {
        seq![v.slider_type.letter()] + points_text(v.curve_points) + ","@ + nat_text(
            v.slides as nat,
        ) + ","@ + decimal_text(v.length) + ","@ + EdgeSounds::spec_text(v.edge_sounds)
    }

    /// Reads slider fields from characters.
    pub fn parse_chars(s: &[char]) -> (r: Option<SliderParams>)
        ensures
            match r {
                None => SliderParams::spec_parse(s@) is None,
                Some(x) => SliderParams::spec_parse(s@) == Some(x@),
            },
    {
        let t = trim_chars(s);
        let raw = splitn_chars(&t, 4, ',');
        let p = trim_each(&raw);
        if p.len() < 4 {
            return None;
        }
        let tp = split_chars(&p[0], '|');
        let ghost tpv = views(tp@);
        proof {
            lemma_split_nonempty(p@[0]@, '|');
        }
        let slider_type = SliderType::parse_chars(&tp[0]);
        let mut curve_points: Vec<SliderPoint> = Vec::new();
        let mut i: usize = 1;
        proof {
            assert(tpv.subrange(1, 1) =~= Seq::<Seq<char>>::empty());
        }
        while i < tp.len()
            invariant
                1 <= i <= tp@.len(),
                tpv == views(tp@),
                p@.len() >= 4,
                views(p@) == trim_all(splitn(trim(s@), 4, ',')),
                tpv == split(p@[0]@, '|'),
                points_of(tpv.subrange(1, i as int)) == Some(curve_points@),
            decreases tp.len() - i,
        {
            proof {
                assert(tpv.subrange(1, i + 1).drop_last() =~= tpv.subrange(1, i as int));
                assert(tpv.subrange(1, i + 1).last() == tp@[i as int]@);
            }
            match SliderPoint::parse_chars(&tp[i]) {
                None => {
                    proof {
                        let q = tpv.subrange(1, tpv.len() as int);
                        assert(q.subrange(0, i as int) =~= tpv.subrange(1, i + 1));
                        lemma_points_none(q, i as int);
                    }
                    return None;
                },
                Some(x) => curve_points.push(x),
            }
            i += 1;
        }
        let slides = parse_u32(&p[1]);
        let length = parse_decimal(&p[2]);
        let edge_sounds = EdgeSounds::parse_chars(&p[3]);
        match (slider_type, slides, length, edge_sounds) {
            (Some(slider_type), Some(slides), Some(length), Some(edge_sounds)) => Some(
                SliderParams { slider_type, curve_points, slides, length, edge_sounds },
            ),
            _ => None,
        }
    }

    /// Each curve point after a `|`.
    pub fn serialize_curve_points(&self) -> (r: String)
        ensures
            r@ == points_text(self.curve_points@),
    {
        let mut buf = String::new();
        self.write_curve_points(&mut buf);
        buf
    }

    fn write_curve_points(&self, buf: &mut String)
        ensures
            final(buf)@ == old(buf)@ + points_text(self.curve_points@),
    {
        let ghost start = buf@;
        let mut i: usize = 0;
        proof {
            assert(self.curve_points@.subrange(0, 0) =~= Seq::<SliderPoint>::empty());
        }
        while i < self.curve_points.len()
            invariant
                i <= self.curve_points@.len(),
                buf@ == start + points_text(self.curve_points@.subrange(0, i as int)),
            decreases self.curve_points.len() - i,
        {
            buf.append("|");
            self.curve_points[i].write_to(buf);
            proof {
                let v = self.curve_points@.subrange(0, i + 1);
                assert(v.drop_last() =~= self.curve_points@.subrange(0, i as int));
                assert(buf@ =~= start + points_text(v));
            }
            i += 1;
        }
        proof {
            assert(self.curve_points@.subrange(0, self.curve_points@.len() as int)
                =~= self.curve_points@);
        }
    }

    /// Appends the canonical spelling to `buf`.
    pub fn write_to(&self, buf: &mut String)
        ensures
            final(buf)@ == old(buf)@ + SliderParams::spec_text(self@),
    {
        crate::text::push_char(buf, self.slider_type.to_char());
        self.write_curve_points(buf);
        buf.append(",");
        push_u64(buf, self.slides as u64);
        buf.append(",");
        push_decimal(buf, &self.length);
        buf.append(",");
        self.edge_sounds.write_to(buf);
        proof {
            assert(buf@ =~= old(buf)@ + SliderParams::spec_text(self@));
        }
    }

    /// The canonical spelling.
    pub fn to_string(&self) -> (r: String)
        ensures
            r@ == SliderParams::spec_text(self@),
    {
        let mut buf = String::new();
        self.write_to(&mut buf);
        buf
    }
}

/// The end of a spinner.
#[derive(Clone, Copy, Debug, Default, PartialEq, Eq, Structural)]
pub struct SpinnerParams {
    pub end_time: u32,
}

impl View for SpinnerParams {
    type V = SpinnerParams;

    open spec fn view(&self) -> SpinnerParams {
        *self
    }
}

impl SpinnerParams {
    /// Reads the end time from characters.
    pub fn parse_chars(s: &[char]) -> (r: Option<SpinnerParams>)
        ensures
            r == (match u32_of(s@) {
                Some(e) => Some(SpinnerParams { end_time: e }),
                None => None,
            }),
    {
        match parse_u32(s) {
            Some(e) => Some(SpinnerParams { end_time: e }),
            None => None,
        }
    }

    /// The end time, as text.
    pub fn to_string(&self) -> (r: String)
        ensures
            r@ == nat_text(self.end_time as nat),
    {
        let mut buf = String::new();
        push_u64(&mut buf, self.end_time as u64);
        buf
    }
}

/// The end of an osu!mania hold note.
#[derive(Clone, Copy, Debug, Default, PartialEq, Eq, Structural)]
pub struct ManiaHoldParams {
    pub end_time: u32,
}

impl View for ManiaHoldParams {
    type V = ManiaHoldParams;

    open spec fn view(&self) -> ManiaHoldParams {
        *self
    }
}

impl ManiaHoldParams {
    /// Reads the end time from characters.
    pub fn parse_chars(s: &[char]) -> (r: Option<ManiaHoldParams>)
        ensures
            r == (match u32_of(s@) {
                Some(e) => Some(ManiaHoldParams { end_time: e }),
                None => None,
            }),
    {
        match parse_u32(s) {
            Some(e) => Some(ManiaHoldParams { end_time: e }),
            None => None,
        }
    }

    /// The end time, as text.
    pub fn to_string(&self) -> (r: String)
        ensures
            r@ == nat_text(self.end_time as nat),
    {
        let mut buf = String::new();
        push_u64(&mut buf, self.end_time as u64);
        buf
    }
}

/// The type bit of a hit circle.
pub const HIT_CIRCLE: u8 = 1;

/// The type bit of a slider.
pub const SLIDER: u8 = 2;

/// The type bit that starts a new combo.
pub const NEW_COMBO: u8 = 4;

/// The type bit of a spinner.
pub const SPINNER: u8 = 8;

/// The type bit of an osu!mania hold note.
pub const MANIA_HOLD: u8 = 128;

/// Position of the three combo-skip bits, weighted 1, 2 and 4, in the type field.
pub const COMBO_SKIP_SHIFT: u8 = 4;

/// The combo-skip count that the type field can hold.
pub const COMBO_SKIP_MASK: u8 = 7;

/// The shape bit that decides the layout of a record with type field `bits`:
/// circle, slider, spinner and hold are tried in this order and the first set
/// bit wins; zero when none is set.
pub open spec fn shape_bit(bits: u8) -> u8 {
    if bits & HIT_CIRCLE != 0 {
        HIT_CIRCLE
    } else if bits & SLIDER != 0 {
        SLIDER
    } else if bits & SPINNER != 0 {
        SPINNER
    } else if bits & MANIA_HOLD != 0 {
        MANIA_HOLD
    } else {
        0
    }
}

/// Whether the type field `bits` starts a new combo.
pub open spec fn decode_new_combo(bits: u8) -> bool {
    bits & NEW_COMBO != 0
}

/// The number of combo colours that the type field `bits` skips: the sum of
/// the weights of its set skip bits, counted only with the new-combo bit.
pub open spec fn decode_combo_skip(bits: u8) -> u8 {
    if bits & NEW_COMBO != 0 {
        (bits >> COMBO_SKIP_SHIFT) & COMBO_SKIP_MASK
    } else {
        0
    }
}

/// The type field for the shape bit `shape`: the new-combo bit when a combo
/// starts or colours are skipped, and the skip count in the skip bits.
pub open spec fn encode_type_bits(shape: u8, new_combo: bool, combo_skip: u8) -> u8 {
    shape | (if new_combo || combo_skip & COMBO_SKIP_MASK != 0 {
        NEW_COMBO
    } else {
        0
    }) | ((combo_skip & COMBO_SKIP_MASK) << COMBO_SKIP_SHIFT)
}

/// The shape bit that decides the layout of a record with type field `bits`.
pub fn shape_bit_of(bits: u8) -> (r: u8)
    ensures
        r == shape_bit(bits),
{
    if bits & HIT_CIRCLE != 0 {
        HIT_CIRCLE
    } else if bits & SLIDER != 0 {
        SLIDER
    } else if bits & SPINNER != 0 {
        SPINNER
    } else if bits & MANIA_HOLD != 0 {
        MANIA_HOLD
    } else {
        0
    }
}

/// The combo-skip count of the type field `bits`.
pub fn combo_skip_of(bits: u8) -> (r: u8)
    ensures
        r == decode_combo_skip(bits),
{
    if bits & NEW_COMBO != 0 {
        (bits >> COMBO_SKIP_SHIFT) & COMBO_SKIP_MASK
    } else {
        0
    }
}

/// The type field for a shape bit, a new-combo flag and a skip count.
pub fn type_bits_of(shape: u8, new_combo: bool, combo_skip: u8) -> (r: u8)
    ensures
        r == encode_type_bits(shape, new_combo, combo_skip),
{
    let nc: u8 = if new_combo || combo_skip & COMBO_SKIP_MASK != 0 {
        NEW_COMBO
    } else {
        0
    };
    shape | nc | ((combo_skip & COMBO_SKIP_MASK) << COMBO_SKIP_SHIFT)
}

/// The hit sounds of an object: normal, whistle, finish and clap, bits 0 to 3.
#[derive(Clone, Copy, Debug, PartialEq, Eq, Structural)]
pub struct HitSoundFlag {
    /// The sound bits; only bits 0 to 3 may be set.
    pub bits: u8,
}

impl HitSoundFlag {
    /// The normal hit sound.
    pub fn normal() -> (r: HitSoundFlag)
        ensures
            r.bits == 1,
    {
        HitSoundFlag { bits: 1 }
    }

    /// The whistle.
    pub fn whistle() -> (r: HitSoundFlag)
        ensures
            r.bits == 2,
    {
        HitSoundFlag { bits: 2 }
    }

    /// The finish.
    pub fn finish() -> (r: HitSoundFlag)
        ensures
            r.bits == 4,
    {
        HitSoundFlag { bits: 4 }
    }

    /// The clap.
    pub fn clap() -> (r: HitSoundFlag)
        ensures
            r.bits == 8,
    {
        HitSoundFlag { bits: 8 }
    }

    /// The sounds of `bits`, without the bits that stand for none.
    pub fn from_bits_truncate(bits: u8) -> (r: HitSoundFlag)
        ensures
            r.bits == bits & 15,
    {
        HitSoundFlag { bits: bits & 15 }
    }

    /// The sounds of both.
    pub fn union(self, other: HitSoundFlag) -> (r: HitSoundFlag)
        ensures
            r.bits == self.bits | other.bits,
    {
        HitSoundFlag { bits: self.bits | other.bits }
    }

    /// The sound bits.
    pub fn bits(&self) -> (r: u8)
        ensures
            r == self.bits,
    {
        self.bits
    }
}

impl Default for HitSoundFlag {
    /// If no bits are set, the normal hitsound is used by default.
    fn default() -> (r: HitSoundFlag)
        ensures
            r.bits == 1,
    {
        HitSoundFlag { bits: 1 }
    }
}

/// The model of [`HitObjectType`].
pub enum HitObjectTypeView {
    HitCircle,
    Slider(SliderParamsView),
    Spinner(SpinnerParams),
    ManiaHold(ManiaHoldParams),
}

/// The shape of a hit object, with the fields that only that shape has.
#[derive(Clone, Debug, PartialEq)]
pub enum HitObjectType {
    HitCircle,
    Slider(SliderParams),
    Spinner(SpinnerParams),
    ManiaHold(ManiaHoldParams),
}

impl View for HitObjectType {
    type V = HitObjectTypeView;

    open spec fn view(&self) -> HitObjectTypeView {
        match self {
            HitObjectType::HitCircle => HitObjectTypeView::HitCircle,
            HitObjectType::Slider(p) => HitObjectTypeView::Slider(p@),
            HitObjectType::Spinner(p) => HitObjectTypeView::Spinner(*p),
            HitObjectType::ManiaHold(p) => HitObjectTypeView::ManiaHold(*p),
        }
    }
}

/// The shape bit of a shape.
pub open spec fn shape_bit_for(t: HitObjectTypeView) -> u8 {
    match t {
        HitObjectTypeView::HitCircle => HIT_CIRCLE,
        HitObjectTypeView::Slider(_) => SLIDER,
        HitObjectTypeView::Spinner(_) => SPINNER,
        HitObjectTypeView::ManiaHold(_) => MANIA_HOLD,
    }
}

/// What a shape writes between the hit sound and the hit sample: nothing for
/// a circle; the slider fields then `,`; a spinner's end then `,`; a hold
/// note's end then `:`.
pub open spec fn shape_text(t: HitObjectTypeView) -> Seq<char> {
    match t {
        HitObjectTypeView::HitCircle => Seq::empty(),
        HitObjectTypeView::Slider(p) => SliderParams::spec_text(p) + ","@,
        HitObjectTypeView::Spinner(p) => nat_text(p.end_time as nat) + ","@,
        HitObjectTypeView::ManiaHold(p) => nat_text(p.end_time as nat) + ":"@,
    }
}

impl HitObjectType {
    /// The shape bit of this shape.
    pub fn shape_bit(&self) -> (r: u8)
        ensures
            r == shape_bit_for(self@),
    {
        match self {
            HitObjectType::HitCircle => HIT_CIRCLE,
            HitObjectType::Slider(_) => SLIDER,
            HitObjectType::Spinner(_) => SPINNER,
            HitObjectType::ManiaHold(_) => MANIA_HOLD,
        }
    }

    /// The slider fields, if this is a slider.
    pub fn try_into_inner(self) -> (r: Option<SliderParams>)
        ensures
            match self@ {
                HitObjectTypeView::Slider(p) => r matches Some(x) && x@ == p,
                _ => r is None,
            },
    {
        match self {
            HitObjectType::Slider(p) => Some(p),
            _ => None,
        }
    }
}

impl Default for HitObjectType {
    fn default() -> (r: HitObjectType)
        ensures
            r@ == HitObjectTypeView::HitCircle,
    {
        HitObjectType::HitCircle
    }
}

/// The model of [`HitObject`].
pub struct HitObjectView {
    pub x: i32,
    pub y: i32,
    pub time: u32,
    pub object_params: HitObjectTypeView,
    pub new_combo: bool,
    pub combo_skip: u8,
    pub hit_sound: u8,
    pub hit_sample: HitSampleView,
}

/// A gameplay object: `x,y,time,type,hitSound`, the fields of its shape, then
/// its hit sample.
#[derive(Clone, Debug, PartialEq)]
pub struct HitObject {
    pub x: i32,
    pub y: i32,
    pub time: u32,
    pub object_params: HitObjectType,
    pub new_combo: bool,
    pub combo_skip: u8,
    pub hit_sound: HitSoundFlag,
    pub hit_sample: HitSample,
}

impl View for HitObject {
    type V = HitObjectView;

    open spec fn view(&self) -> HitObjectView {
        HitObjectView {
            x: self.x,
            y: self.y,
            time: self.time,
            object_params: self.object_params@,
            new_combo: self.new_combo,
            combo_skip: self.combo_skip,
            hit_sound: self.hit_sound.bits,
            hit_sample: self.hit_sample@,
        }
    }
}

/// The hit sample that `s` spells; any error names the hit sample.
pub open spec fn sample_of(s: Seq<char>) -> Result<HitSampleView, ParseFault> {
    match HitSample::spec_parse(s) {
        Ok(h) => Ok(h),
        Err(_) => Err(ParseFault::InvalidFormat("hit_sample"@)),
    }
}

/// The shape fields and the hit sample of a record whose shape bit is `shape`
/// and whose text after the hit sound is `rest`.
pub open spec fn shape_tail(shape: u8, rest: Option<Seq<char>>) -> Result<
    (HitObjectTypeView, HitSampleView),
    ParseFault,
> {
    if shape == HIT_CIRCLE {
        match rest {
            None => Ok((HitObjectTypeView::HitCircle, default_hit_sample())),
            Some(t) => match sample_of(t) {
                Ok(h) => Ok((HitObjectTypeView::HitCircle, h)),
                Err(e) => Err(e),
            },
        }
    } else if shape == SLIDER {
        match rest {
            None => Err(ParseFault::InvalidFormat("object_params"@)),
            Some(t) => match rsplit_once(t, ',') {
                None => Err(ParseFault::InvalidFormat("object_params"@)),
                Some((a, b)) => match SliderParams::spec_parse(a) {
                    None => Err(ParseFault::InvalidFormat("object_params"@)),
                    Some(p) => match sample_of(b) {
                        Ok(h) => Ok((HitObjectTypeView::Slider(p), h)),
                        Err(e) => Err(e),
                    },
                },
            },
        }
    } else {
        let sep = if shape == SPINNER {
            ','
        } else {
            ':'
        };
        match rest {
            None => Err(ParseFault::InvalidFormat("object_params/hit_sample"@)),
            Some(t) => match split_once(t, sep) {
                None => Err(ParseFault::InvalidFormat("object_params/hit_sample"@)),
                Some((a, b)) => match u32_of(a) {
                    None => Err(ParseFault::InvalidFormat("object_params"@)),
                    Some(e) => match sample_of(b) {
                        Ok(h) => Ok(
                            (
                                if shape == SPINNER {
                                    HitObjectTypeView::Spinner(SpinnerParams { end_time: e })
                                } else {
                                    HitObjectTypeView::ManiaHold(ManiaHoldParams { end_time: e })
                                },
                                h,
                            ),
                        ),
                        Err(err) => Err(err),
                    },
                },
            },
        }
    }
}

/// Piece `k` of `f` read by `read`.
pub open spec fn read_piece<T>(f: Seq<Seq<char>>, k: int, read: spec_fn(Seq<char>) -> Option<T>) -> Option<T> {
    match piece(f, k) {
        Some(t) => read(t),
        None => None,
    }
}

impl HitObject {
    /// The object that the line `s` spells.
    pub open spec fn spec_parse(s: Seq<char>) -> Result<HitObjectView, ParseFault> {
        let f = trim_all(splitn(trim(s), 6, ','));
        match read_piece(f, 3, |t: Seq<char>| u8_of(t)) {
            None => Err(ParseFault::InvalidFormat("object_type"@)),
            Some(bits) => match read_piece(f, 0, |t: Seq<char>| i32_of(t)) {
                None => Err(ParseFault::InvalidFormat("x"@)),
                Some(x) => match read_piece(f, 1, |t: Seq<char>| i32_of(t)) {
                    None => Err(ParseFault::InvalidFormat("y"@)),
                    Some(y) => match read_piece(f, 2, |t: Seq<char>| u32_of(t)) {
                        None => Err(ParseFault::InvalidFormat("time"@)),
                        Some(time) => if shape_bit(bits) == 0 {
                            Err(ParseFault::InvalidFormat("object_params"@))
                        } else {
                            match read_piece(f, 4, |t: Seq<char>| u8_of(t)) {
                                None => Err(ParseFault::InvalidFormat("hit_sound"@)),
                                Some(hs) => match shape_tail(shape_bit(bits), piece(f, 5)) {
                                    Err(e) => Err(e),
                                    Ok((object_params, hit_sample)) => Ok(
                                        HitObjectView {
                                            x,
                                            y,
                                            time,
                                            object_params,
                                            new_combo: decode_new_combo(bits),
                                            combo_skip: decode_combo_skip(bits),
                                            hit_sound: hs & 15,
                                            hit_sample,
                                        },
                                    ),
                                },
                            }
                        },
                    },
                },
            },
        }
    }

    /// The first five fields of the line of `v`, each followed by a comma.
    pub open spec fn head_text(v: HitObjectView) -> Seq<char> {
        int_text(v.x as int) + ","@ + int_text(v.y as int) + ","@ + nat_text(v.time as nat) + ","@
            + nat_text(
            encode_type_bits(shape_bit_for(v.object_params), v.new_combo, v.combo_skip) as nat,
        ) + ","@ + nat_text(v.hit_sound as nat) + ","@
    }

    /// The canonical line of `v`.
    pub open spec fn spec_text(v: HitObjectView) -> Seq<char> {
        HitObject::head_text(v) + shape_text(v.object_params) + HitSample::spec_text(v.hit_sample)
    }

    fn write_head(&self, buf: &mut String)
        ensures
            final(buf)@ == old(buf)@ + HitObject::head_text(self@),
    {
        push_i32(buf, self.x);
        buf.append(",");
        push_i32(buf, self.y);
        buf.append(",");
        push_u64(buf, self.time as u64);
        buf.append(",");
        let bits = type_bits_of(self.object_params.shape_bit(), self.new_combo, self.combo_skip);
        push_u64(buf, bits as u64);
        buf.append(",");
        push_u64(buf, self.hit_sound.bits as u64);
        buf.append(",");
        proof {
            assert(buf@ =~= old(buf)@ + HitObject::head_text(self@));
        }
    }

    fn write_shape(&self, buf: &mut String)
        ensures
            final(buf)@ == old(buf)@ + shape_text(self.object_params@),
    {
        match &self.object_params {
            HitObjectType::HitCircle => {},
            HitObjectType::Slider(p) => {
                p.write_to(buf);
                buf.append(",");
            },
            HitObjectType::Spinner(p) => {
                push_u64(buf, p.end_time as u64);
                buf.append(",");
            },
            HitObjectType::ManiaHold(p) => {
                push_u64(buf, p.end_time as u64);
                buf.append(":");
            },
        }
        proof {
            assert(buf@ =~= old(buf)@ + shape_text(self.object_params@));
        }
    }
}

fn sample_from(s: &[char]) -> (r: Result<HitSample, BeatmapParseError>)
    ensures
        result_view(r) == sample_of(s@),
{
    match HitSample::parse_chars(s) {
        Ok(h) => Ok(h),
        Err(_) => Err(invalid("hit_sample")),
    }
}

fn tail_from(shape: u8, rest: Option<&Vec<char>>) -> (r: Result<
    (HitObjectType, HitSample),
    BeatmapParseError,
>)
    requires
        shape != 0,
    ensures
        match r {
            Ok((t, h)) => shape_tail(
                shape,
                match rest {
                    Some(v) => Some(v@),
                    None => None,
                },
            ) == Ok::<(HitObjectTypeView, HitSampleView), ParseFault>((t@, h@)),
            Err(e) => shape_tail(
                shape,
                match rest {
                    Some(v) => Some(v@),
                    None => None,
                },
            ) == Err::<(HitObjectTypeView, HitSampleView), ParseFault>(e@),
        },
{
    if shape == HIT_CIRCLE {
        match rest {
            None => Ok((HitObjectType::HitCircle, HitSample::new())),
            Some(t) => match sample_from(t) {
                Ok(h) => Ok((HitObjectType::HitCircle, h)),
                Err(e) => Err(e),
            },
        }
    } else if shape == SLIDER {
        match rest {
            None => Err(invalid("object_params")),
            Some(t) => match rsplit_once_chars(t, ',') {
                None => Err(invalid("object_params")),
                Some((a, b)) => match SliderParams::parse_chars(&a) {
                    None => Err(invalid("object_params")),
                    Some(p) => match sample_from(&b) {
                        Ok(h) => Ok((HitObjectType::Slider(p), h)),
                        Err(e) => Err(e),
                    },
                },
            },
        }
    } else {
        let sep = if shape == SPINNER {
            ','
        } else {
            ':'
        };
        match rest {
            None => Err(invalid("object_params/hit_sample")),
            Some(t) => match split_once_chars(t, sep) {
                None => Err(invalid("object_params/hit_sample")),
                Some((a, b)) => match parse_u32(&a) {
                    None => Err(invalid("object_params")),
                    Some(e) => match sample_from(&b) {
                        Ok(h) => {
                            let params = if shape == SPINNER {
                                HitObjectType::Spinner(SpinnerParams { end_time: e })
                            } else {
                                HitObjectType::ManiaHold(ManiaHoldParams { end_time: e })
                            };
                            Ok((params, h))
                        },
                        Err(err) => Err(err),
                    },
                },
            },
        }
    }
}

fn u8_piece(f: &Vec<Vec<char>>, k: usize) -> (r: Option<u8>)
    ensures
        r == read_piece(views(f@), k as int, |t: Seq<char>| u8_of(t)),
{
    match piece_at(f, k) {
        Some(t) => parse_u8(t),
        None => None,
    }
}

fn u32_piece(f: &Vec<Vec<char>>, k: usize) -> (r: Option<u32>)
    ensures
        r == read_piece(views(f@), k as int, |t: Seq<char>| u32_of(t)),
{
    match piece_at(f, k) {
        Some(t) => parse_u32(t),
        None => None,
    }
}

fn i32_piece(f: &Vec<Vec<char>>, k: usize) -> (r: Option<i32>)
    ensures
        r == read_piece(views(f@), k as int, |t: Seq<char>| i32_of(t)),
{
    match piece_at(f, k) {
        Some(t) => parse_i32(t),
        None => None,
    }
}

impl CommaListElement for HitObject {
    open spec fn spec_parse(s: Seq<char>) -> Result<HitObjectView, ParseFault> {
        HitObject::spec_parse(s)
    }

    open spec fn spec_text(v: HitObjectView) -> Seq<char> {
        HitObject::spec_text(v)
    }

    fn parse_chars(s: &[char]) -> (r: Result<HitObject, BeatmapParseError>) {
        let t = trim_chars(s);
        let raw = splitn_chars(&t, 6, ',');
        let f = trim_each(&raw);
        let bits = match u8_piece(&f, 3) {
            None => {
                return Err(invalid("object_type"));
            },
            Some(b) => b,
        };
        let x = match i32_piece(&f, 0) {
            None => {
                return Err(invalid("x"));
            },
            Some(v) => v,
        };
        let y = match i32_piece(&f, 1) {
            None => {
                return Err(invalid("y"));
            },
            Some(v) => v,
        };
        let time = match u32_piece(&f, 2) {
            None => {
                return Err(invalid("time"));
            },
            Some(v) => v,
        };
        let shape = shape_bit_of(bits);
        if shape == 0 {
            return Err(invalid("object_params"));
        }
        let hs = match u8_piece(&f, 4) {
            None => {
                return Err(invalid("hit_sound"));
            },
            Some(v) => v,
        };
        match tail_from(shape, piece_at(&f, 5)) {
            Err(e) => Err(e),
            Ok((object_params, hit_sample)) => Ok(
                HitObject {
                    x,
                    y,
                    time,
                    object_params,
                    new_combo: bits & NEW_COMBO != 0,
                    combo_skip: combo_skip_of(bits),
                    hit_sound: HitSoundFlag::from_bits_truncate(hs),
                    hit_sample,
                },
            ),
        }
    }

    fn write_to(&self, buf: &mut String) {
        self.write_head(buf);
        self.write_shape(buf);
        self.hit_sample.write_to(buf);
        proof {
            assert(buf@ =~= old(buf)@ + HitObject::spec_text(self@));
        }
    }
}

impl HitObject {
    /// Parses one line.
    pub fn parse(s: &str) -> (r: Result<HitObject, BeatmapParseError>)
        ensures
            result_view(r) == HitObject::spec_parse(s@),
    {
        let c = chars_of(s);
        <HitObject as CommaListElement>::parse_chars(&c)
    }

    /// The canonical line.
    pub fn serialize(&self) -> (r: String)
        ensures
            r@ == HitObject::spec_text(self@),
    {
        let mut buf = String::new();
        self.write_to(&mut buf);
        buf
    }
}

/// The type field that [`encode_type_bits`] builds decodes to the same shape
/// and skip count, and starts a new combo when one was asked for or colours
/// are skipped: the two directions share one bit table.
pub proof fn law_type_bits_round_trip(shape: u8, new_combo: bool, combo_skip: u8)
    requires
        shape == HIT_CIRCLE || shape == SLIDER || shape == SPINNER || shape == MANIA_HOLD,
        combo_skip <= COMBO_SKIP_MASK,
    ensures
        shape_bit(encode_type_bits(shape, new_combo, combo_skip)) == shape,
        decode_new_combo(encode_type_bits(shape, new_combo, combo_skip)) == (new_combo
            || combo_skip != 0),
        decode_combo_skip(encode_type_bits(shape, new_combo, combo_skip)) == combo_skip,
{
    let nc: u8 = if new_combo || combo_skip & 7 != 0 {
        4
    } else {
        0
    };
    let bits = shape | nc | ((combo_skip & 7) << 4);
    assert(bits == encode_type_bits(shape, new_combo, combo_skip));
    assert(combo_skip & 7 == combo_skip) by (bit_vector)
        requires
            combo_skip <= 7,
    ;
    assert(bits & 4 != 0 <==> nc == 4) by (bit_vector)
        requires
            bits == shape | nc | ((combo_skip & 7) << 4),
            shape == 1 || shape == 2 || shape == 8 || shape == 128,
            nc == 0 || nc == 4,
    ;
    assert((bits >> 4) & 7 == combo_skip) by (bit_vector)
        requires
            bits == shape | nc | ((combo_skip & 7) << 4),
            shape == 1 || shape == 2 || shape == 8 || shape == 128,
            nc == 0 || nc == 4,
            combo_skip <= 7,
    ;
    assert(combo_skip == 0 || nc == 4);
    assert(shape == 1 ==> bits & 1 != 0) by (bit_vector)
        requires
            bits == shape | nc | ((combo_skip & 7) << 4),
    ;
    assert(shape == 2 ==> bits & 1 == 0 && bits & 2 != 0) by (bit_vector)
        requires
            bits == shape | nc | ((combo_skip & 7) << 4),
            nc == 0 || nc == 4,
    ;
    assert(shape == 8 ==> bits & 1 == 0 && bits & 2 == 0 && bits & 8 != 0) by (bit_vector)
        requires
            bits == shape | nc | ((combo_skip & 7) << 4),
            nc == 0 || nc == 4,
    ;
    assert(shape == 128 ==> bits & 1 == 0 && bits & 2 == 0 && bits & 8 == 0 && bits & 128 != 0)
        by (bit_vector)
        requires
            bits == shape | nc | ((combo_skip & 7) << 4),
            nc == 0 || nc == 4,
            combo_skip <= 7,
    ;
}

/// Whether a file name can stand in a hit sample and read back: no `:` or
/// `,`, and no white space at either end.
pub open spec fn plain_name(f: Seq<char>) -> bool {
    &&& forall|i: int| 0 <= i < f.len() ==> f[i] != ':' && f[i] != ',' && f[i] != '\n'
    &&& f.len() > 0 ==> !is_space(f[0]) && !is_space(f.last())
}

/// The five parts of the canonical spelling of a hit sample.
pub open spec fn sample_parts(v: HitSampleView) -> Seq<Seq<char>> {
    seq![
        v.normal_set.spec_text(),
        v.additional_set.spec_text(),
        nat_text(v.index as nat),
        nat_text(v.volume as nat),
        v.filename,
    ]
}

/// A hit sample whose file name is plain reads back from its spelling, which
/// starts with a digit, ends in no white space and holds no comma or newline.
#[verifier::rlimit(100)]
pub proof fn law_hit_sample_round_trip(v: HitSampleView)
    requires
        plain_name(v.filename),
    ensures
        HitSample::spec_parse(HitSample::spec_text(v)) == Ok::<HitSampleView, ParseFault>(v),
        HitSample::spec_text(v).len() > 0,
        is_digit(HitSample::spec_text(v)[0]),
        !is_space(HitSample::spec_text(v).last()),
        forall|i: int|
            0 <= i < HitSample::spec_text(v).len() ==> #[trigger] HitSample::spec_text(v)[i] != ','
                && HitSample::spec_text(v)[i] != '\n',
{
    let p = sample_parts(v);
    reveal_strlit(":");
    let text = HitSample::spec_text(v);
    assert(join(p.subrange(0, 1), seq![':']) == p[0]);
    lemma_join_push(p.subrange(0, 1), p[1], seq![':']);
    assert(p.subrange(0, 1).push(p[1]) =~= p.subrange(0, 2));
    lemma_join_push(p.subrange(0, 2), p[2], seq![':']);
    assert(p.subrange(0, 2).push(p[2]) =~= p.subrange(0, 3));
    lemma_join_push(p.subrange(0, 3), p[3], seq![':']);
    assert(p.subrange(0, 3).push(p[3]) =~= p.subrange(0, 4));
    lemma_join_push(p.subrange(0, 4), p[4], seq![':']);
    assert(p.subrange(0, 4).push(p[4]) =~= p);
    assert(text =~= join(p, seq![':']));
    lemma_nat_text(v.normal_set.index());
    lemma_nat_text(v.additional_set.index());
    lemma_nat_text(v.index as nat);
    lemma_nat_text(v.volume as nat);
    lemma_digits_plain(p[0]);
    lemma_digits_plain(p[1]);
    lemma_digits_plain(p[2]);
    lemma_digits_plain(p[3]);
    crate::types::law_sample_set_round_trip(v.normal_set);
    crate::types::law_sample_set_round_trip(v.additional_set);
    law_integer_round_trips(v.volume, v.index, 0);
    assert(('\n' as u32) == 10 && (':' as u32) == 58 && (',' as u32) == 44);
    assert forall|i: int, j: int| 0 <= i < p.len() && 0 <= j < p[i].len() implies p[i][j] != ':'
        by {
        if i == 4 {
            assert(p[i] == v.filename);
        }
    }
    lemma_split_join(p, ':');
    lemma_trim_unchanged(p[0]);
    lemma_trim_unchanged(p[1]);
    lemma_trim_unchanged(p[2]);
    lemma_trim_unchanged(p[3]);
    if v.filename.len() > 0 {
        lemma_trim_unchanged(v.filename);
    } else {
        lemma_trim_empty();
        assert(v.filename =~= Seq::<char>::empty());
    }
    assert(trim_all(p) =~= p);
    let front = p[0] + seq![':'];
    assert(text =~= p[0] + (seq![':'] + p[1] + seq![':'] + p[2] + seq![':'] + p[3] + seq![':']
        + v.filename));
    assert(text[0] == p[0][0]);
    assert(is_digit(p[0][0]));
    if v.filename.len() > 0 {
        assert(text.last() == v.filename.last());
    } else {
        assert(text.last() == ':');
        assert((' ' as u32) == 32);
    }
    lemma_trim_unchanged(text);
    lemma_join_avoids(p, seq![':'], ',');
    lemma_join_avoids(p, seq![':'], '\n');
}

/// A circle, spinner or hold note that the codec can write and read back:
/// its skip count fits the type field and comes with a new combo, its hit
/// sounds are known bits, and its sample file name is plain.
pub open spec fn simple_object_wf(v: HitObjectView) -> bool {
    &&& !(v.object_params is Slider)
    &&& v.combo_skip <= COMBO_SKIP_MASK
    &&& v.combo_skip != 0 ==> v.new_combo
    &&& v.hit_sound <= 15
    &&& plain_name(v.hit_sample.filename)
}

proof fn lemma_plain_number(n: nat)
    ensures
        nat_text(n).len() > 0,
        !is_space(nat_text(n)[0]),
        !is_space(nat_text(n).last()),
        is_digit(nat_text(n)[0]),
        forall|i: int| 0 <= i < nat_text(n).len() ==> #[trigger] nat_text(n)[i] != ',',
{
    lemma_nat_text(n);
    lemma_digits_plain(nat_text(n));
}

proof fn lemma_plain_int(n: int)
    ensures
        int_text(n).len() > 0,
        !is_space(int_text(n)[0]),
        !is_space(int_text(n).last()),
        forall|i: int| 0 <= i < int_text(n).len() ==> #[trigger] int_text(n)[i] != ',',
{
    crate::number::lemma_int_text_plain(n);
}

/// The text after the hit sound of the line of `v`.
pub open spec fn object_rest(v: HitObjectView) -> Seq<char> {
    shape_text(v.object_params) + HitSample::spec_text(v.hit_sample)
}

/// The six fields that the line of `v` splits into.
pub open spec fn object_fields(v: HitObjectView) -> Seq<Seq<char>> {
    seq![
        int_text(v.x as int),
        int_text(v.y as int),
        nat_text(v.time as nat),
        nat_text(
            encode_type_bits(shape_bit_for(v.object_params), v.new_combo, v.combo_skip) as nat,
        ),
        nat_text(v.hit_sound as nat),
        object_rest(v),
    ]
}

proof fn lemma_object_tail(v: HitObjectView)
    requires
        simple_object_wf(v),
    ensures
        shape_tail(shape_bit_for(v.object_params), Some(object_rest(v))) == Ok::<
            (HitObjectTypeView, HitSampleView),
            ParseFault,
        >((v.object_params, v.hit_sample)),
        object_rest(v).len() > 0,
        !is_space(object_rest(v)[0]),
        !is_space(object_rest(v).last()),
{
    reveal_strlit(",");
    reveal_strlit(":");
    let sample = HitSample::spec_text(v.hit_sample);
    let rest = object_rest(v);
    law_hit_sample_round_trip(v.hit_sample);
    match v.object_params {
        HitObjectTypeView::HitCircle => {
            assert(rest =~= sample);
        },
        HitObjectTypeView::Spinner(p) => {
            let e = nat_text(p.end_time as nat);
            lemma_plain_number(p.end_time as nat);
            law_integer_round_trips(0, p.end_time, 0);
            assert(rest =~= e + seq![','] + sample);
            crate::text::lemma_split_once_joined(e, sample, ',');
            assert(rest[0] == e[0]);
        },
        HitObjectTypeView::ManiaHold(p) => {
            let e = nat_text(p.end_time as nat);
            lemma_nat_text(p.end_time as nat);
            lemma_digits_plain(e);
            lemma_plain_number(p.end_time as nat);
            law_integer_round_trips(0, p.end_time, 0);
            assert(rest =~= e + seq![':'] + sample);
            crate::text::lemma_split_once_joined(e, sample, ':');
            assert(rest[0] == e[0]);
        },
        HitObjectTypeView::Slider(_) => {},
    }
    assert(rest.last() == sample.last());
}

#[verifier::rlimit(100)]
proof fn lemma_object_text_nested(v: HitObjectView)
    ensures
        HitObject::spec_text(v) == object_fields(v)[0] + seq![','] + (object_fields(v)[1] + seq![
            ',',
        ] + (object_fields(v)[2] + seq![','] + (object_fields(v)[3] + seq![','] + (
        object_fields(v)[4] + seq![','] + object_fields(v)[5])))),
{
    reveal_strlit(",");
    let f = object_fields(v);
    let c = seq![','];
    let r4 = f[4] + c + f[5];
    let r3 = f[3] + c + r4;
    let r2 = f[2] + c + r3;
    let r1 = f[1] + c + r2;
    let r0 = f[0] + c + r1;
    let head = HitObject::head_text(v);
    assert(head == f[0] + c + f[1] + c + f[2] + c + f[3] + c + f[4] + c);
    assert(r0.len() == head.len() + f[5].len());
    assert forall|i: int| 0 <= i < r0.len() implies #[trigger] r0[i] == (head + f[5])[i] by {
        let l0 = f[0].len() + 1;
        let l1 = l0 + f[1].len() + 1;
        let l2 = l1 + f[2].len() + 1;
        let l3 = l2 + f[3].len() + 1;
        let l4 = l3 + f[4].len() + 1;
        if i >= l4 {
            assert(r0[i] == f[5][i - l4]);
        }
    }
    assert(HitObject::spec_text(v) =~= r0);
}

proof fn lemma_object_splits(v: HitObjectView)
    requires
        simple_object_wf(v),
    ensures
        splitn(HitObject::spec_text(v), 6, ',') == object_fields(v),
{
    let f = object_fields(v);
    lemma_plain_int(v.x as int);
    lemma_plain_int(v.y as int);
    lemma_plain_number(v.time as nat);
    lemma_plain_number(
        encode_type_bits(shape_bit_for(v.object_params), v.new_combo, v.combo_skip) as nat,
    );
    lemma_plain_number(v.hit_sound as nat);
    lemma_object_text_nested(v);
    let c = seq![','];
    let r4 = f[4] + c + f[5];
    let r3 = f[3] + c + r4;
    let r2 = f[2] + c + r3;
    let r1 = f[1] + c + r2;
    lemma_splitn_joined(f[0], r1, 6, ',');
    lemma_splitn_joined(f[1], r2, 5, ',');
    lemma_splitn_joined(f[2], r3, 4, ',');
    lemma_splitn_joined(f[3], r4, 3, ',');
    lemma_splitn_joined(f[4], f[5], 2, ',');
    assert(splitn(HitObject::spec_text(v), 6, ',') =~= f);
}

proof fn lemma_object_trims(v: HitObjectView)
    requires
        simple_object_wf(v),
    ensures
        trim(HitObject::spec_text(v)) == HitObject::spec_text(v),
        trim_all(object_fields(v)) == object_fields(v),
{
    let f = object_fields(v);
    let text = HitObject::spec_text(v);
    lemma_plain_int(v.x as int);
    lemma_plain_int(v.y as int);
    lemma_plain_number(v.time as nat);
    lemma_plain_number(
        encode_type_bits(shape_bit_for(v.object_params), v.new_combo, v.combo_skip) as nat,
    );
    lemma_plain_number(v.hit_sound as nat);
    lemma_object_tail(v);
    lemma_object_text_nested(v);
    assert(text[0] == f[0][0]);
    assert(text.last() == f[5].last());
    lemma_trim_unchanged(text);
    lemma_trim_unchanged(f[0]);
    lemma_trim_unchanged(f[1]);
    lemma_trim_unchanged(f[2]);
    lemma_trim_unchanged(f[3]);
    lemma_trim_unchanged(f[4]);
    lemma_trim_unchanged(f[5]);
    assert(trim_all(f) =~= f);
}

proof fn lemma_object_fields(v: HitObjectView)
    requires
        simple_object_wf(v),
    ensures
        trim_all(splitn(trim(HitObject::spec_text(v)), 6, ',')) == object_fields(v),
{
    lemma_object_trims(v);
    lemma_object_splits(v);
}

/// The variant codec reads back every circle, spinner and hold note that it
/// writes: the type field, the shape fields with their own separators, and
/// the hit sample all come back unchanged.
#[verifier::rlimit(100)]
pub proof fn law_simple_object_round_trip(v: HitObjectView)
    requires
        simple_object_wf(v),
    ensures
        HitObject::spec_parse(HitObject::spec_text(v)) == Ok::<HitObjectView, ParseFault>(v),
{
    let shape = shape_bit_for(v.object_params);
    let bits = encode_type_bits(shape, v.new_combo, v.combo_skip);
    law_type_bits_round_trip(shape, v.new_combo, v.combo_skip);
    lemma_object_fields(v);
    lemma_object_tail(v);
    law_integer_round_trips(bits, v.time, v.x);
    law_integer_round_trips(v.hit_sound, 0, v.y);
    let hs = v.hit_sound;
    assert(hs & 15 == hs) by (bit_vector)
        requires
            hs <= 15,
    ;
    let f = object_fields(v);
    assert(piece(f, 5) == Some(object_rest(v)));
}

} // verus!

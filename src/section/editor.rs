//! The editor section.
use vstd::prelude::*;
use vstd::seq_lib::lemma_concat_associative;
use crate::error::{result_view, BeatmapParseError, ParseFault};
use crate::section::{
    field_as, field_text, get_decimal_field, get_i32_field, get_text_field, write_decimal_field,
    write_field, write_i32_field,
};
use crate::error::invalid;
use crate::number::{decimal_of, decimal_text, i32_of, int_text, parse_i32, push_i32, Decimal};
use crate::text::{chars_of, lines, lines_of, split, split_chars, views};

verus! {

/// The integers that the pieces `p` spell, if each spells an `i32`.
pub open spec fn i32s_of(p: Seq<Seq<char>>) -> Option<Seq<i32>>
    decreases p.len(),
{
    if p.len() == 0 {
        Some(Seq::empty())
    } else {
        match (i32s_of(p.drop_last()), i32_of(p.last())) {
            (Some(v), Some(n)) => Some(v.push(n)),
            _ => None,
        }
    }
}

/// The integers of `v` separated by commas.
pub open spec fn i32s_text(v: Seq<i32>) -> Seq<char>
    decreases v.len(),
{
    if v.len() == 0 {
        Seq::empty()
    } else if v.len() == 1 {
        int_text(v[0] as int)
    } else {
        i32s_text(v.drop_last()) + ","@ + int_text(v.last() as int)
    }
}

/// The bookmarks: the `Bookmarks` field split at each comma, none when the
/// field is absent or empty.
pub open spec fn bookmarks_of(ls: Seq<Seq<char>>) -> Result<Seq<i32>, ParseFault> {
    match field_as(ls, "Bookmarks"@, Seq::empty(), |v: Seq<char>| Some(v)) {
        Err(e) => Err(e),
        Ok(t) => if t.len() == 0 {
            Ok(Seq::empty())
        } else {
            match i32s_of(split(t, ',')) {
                Some(v) => Ok(v),
                None => Err(ParseFault::InvalidFormat("Bookmarks"@)),
            }
        },
    }
}

proof fn lemma_i32s_none(p: Seq<Seq<char>>, k: int)
    requires
        0 <= k <= p.len(),
        i32s_of(p.subrange(0, k)) is None,
    ensures
        i32s_of(p) is None,
    decreases p.len(),
{
    if k == p.len() {
        assert(p.subrange(0, k) =~= p);
    } else {
        assert(p.drop_last().subrange(0, k) =~= p.subrange(0, k));
        lemma_i32s_none(p.drop_last(), k);
    }
}

fn get_bookmarks(ls: &Vec<Vec<char>>) -> (r: Result<Vec<i32>, BeatmapParseError>)
    ensures
        result_view(r) == bookmarks_of(views(ls@)),
{
    let t = match get_text_field(ls, "Bookmarks") {
        Err(e) => {
            return Err(e);
        },
        Ok(t) => t,
    };
    let c = chars_of(t.as_str());
    if c.len() == 0 {
        return Ok(Vec::new());
    }
    let p = split_chars(&c, ',');
    let ghost pv = views(p@);
    let mut out: Vec<i32> = Vec::new();
    let mut i: usize = 0;
    proof {
        assert(pv.subrange(0, 0) =~= Seq::<Seq<char>>::empty());
    }
    while i < p.len()
        invariant
            i <= p@.len(),
            pv == views(p@),
            pv == split(t@, ','),
            c@ == t@,
            t@.len() > 0,
            field_as(views(ls@), "Bookmarks"@, Seq::empty(), |v: Seq<char>| Some(v)) == Ok::<
                Seq<char>,
                ParseFault,
            >(t@),
            i32s_of(pv.subrange(0, i as int)) == Some(out@),
        decreases p.len() - i,
    {
        proof {
            assert(pv.subrange(0, i + 1).drop_last() =~= pv.subrange(0, i as int));
            assert(pv.subrange(0, i + 1).last() == p@[i as int]@);
        }
        match parse_i32(&p[i]) {
            None => {
                proof {
                    lemma_i32s_none(pv, i + 1);
                }
                return Err(invalid("Bookmarks"));
            },
            Some(n) => out.push(n),
        }
        i += 1;
    }
    proof {
        assert(pv.subrange(0, p@.len() as int) =~= pv);
    }
    Ok(out)
}

fn i32s_string(v: &Vec<i32>) -> (r: String)
    ensures
        r@ == i32s_text(v@),
{
    let mut buf = String::new();
    let mut i: usize = 0;
    proof {
        assert(v@.subrange(0, 0) =~= Seq::<i32>::empty());
    }
    while i < v.len()
        invariant
            i <= v@.len(),
            buf@ == i32s_text(v@.subrange(0, i as int)),
        decreases v.len() - i,
    {
        if i > 0 {
            buf.append(",");
        }
        push_i32(&mut buf, v[i]);
        proof {
            let w = v@.subrange(0, i + 1);
            assert(w.drop_last() =~= v@.subrange(0, i as int));
            assert(buf@ =~= i32s_text(w));
        }
        i += 1;
    }
    proof {
        assert(v@.subrange(0, v@.len() as int) =~= v@);
    }
    buf
}

/// The model of [`EditorSection`].
pub struct EditorSectionView {
    pub bookmarks: Seq<i32>,
    pub distance_spacing: Decimal,
    pub beat_divisor: Decimal,
    pub grid_size: i32,
    pub timeline_zoom: Decimal,
}

/// Settings of the beatmap editor.
#[derive(Debug, Default)]
pub struct EditorSection {
    /// Times of the editor bookmarks, in milliseconds
    pub bookmarks: Vec<i32>,
    /// Distance snap multiplier
    pub distance_spacing: Decimal,
    /// Beat snap divisor
    pub beat_divisor: Decimal,
    /// Grid size
    pub grid_size: i32,
    /// Scale factor for the object timeline
    pub timeline_zoom: Decimal,
}

impl View for EditorSection {
    type V = EditorSectionView;

    open spec fn view(&self) -> EditorSectionView {
        EditorSectionView {
            bookmarks: self.bookmarks@,
            distance_spacing: self.distance_spacing,
            beat_divisor: self.beat_divisor,
            grid_size: self.grid_size,
            timeline_zoom: self.timeline_zoom,
        }
    }
}

impl EditorSection {
    /// The model of the section whose fields all take their defaults.
    pub open spec fn spec_default() -> EditorSectionView {
        EditorSectionView {
            bookmarks: Seq::empty(),
            distance_spacing: Decimal { negative: false, digits: 0, scale: 0 },
            beat_divisor: Decimal { negative: false, digits: 0, scale: 0 },
            grid_size: 0i32,
            timeline_zoom: Decimal { negative: false, digits: 0, scale: 0 },
        }
    }

    /// The section whose fields all take their defaults.
    pub fn new() -> (r: EditorSection)
        ensures
            r@ == EditorSection::spec_default(),
    {
        let r = EditorSection {
            bookmarks: Vec::new(),
            distance_spacing: Decimal::zero(),
            beat_divisor: Decimal::zero(),
            grid_size: 0,
            timeline_zoom: Decimal::zero(),
        };
        proof {
            assert(r@.bookmarks =~= Seq::empty());
        }
        r
    }

    /// The section that `s` spells: each field read from the first line that
    /// names it, its default when no line does.
    pub open spec fn spec_parse(s: Seq<char>) -> Result<EditorSectionView, ParseFault> {
        let ls = lines(s);
        match bookmarks_of(ls) {
            Err(e) => Err(e),
            Ok(bookmarks) => {
                match field_as(
                    ls,
                    "DistanceSpacing"@,
                    Decimal { negative: false, digits: 0, scale: 0 },
                    |v: Seq<char>| decimal_of(v),
                ) {
                    Err(e) => Err(e),
                    Ok(distance_spacing) => {
                        match field_as(
                            ls,
                            "BeatDivisor"@,
                            Decimal { negative: false, digits: 0, scale: 0 },
                            |v: Seq<char>| decimal_of(v),
                        ) {
                            Err(e) => Err(e),
                            Ok(beat_divisor) => {
                                match field_as(
                                    ls,
                                    "GridSize"@,
                                    0i32,
                                    |v: Seq<char>| i32_of(v),
                                ) {
                                    Err(e) => Err(e),
                                    Ok(grid_size) => {
                                        match field_as(
                                            ls,
                                            "TimelineZoom"@,
                                            Decimal { negative: false, digits: 0, scale: 0 },
                                            |v: Seq<char>| decimal_of(v),
                                        ) {
                                            Err(e) => Err(e),
                                            Ok(timeline_zoom) => {
                                                Ok(EditorSectionView {
                                                    bookmarks,
                                                    distance_spacing,
                                                    beat_divisor,
                                                    grid_size,
                                                    timeline_zoom,
                                                })
                                            },
                                        }
                                    },
                                }
                            },
                        }
                    },
                }
            },
        }
    }

    /// The canonical section: one line per field that is not at its default,
    /// in declaration order.
    pub open spec fn spec_text(v: EditorSectionView) -> Seq<char> {
        field_text("Bookmarks"@, i32s_text(v.bookmarks), v.bookmarks.len() == 0, true)
            + field_text("DistanceSpacing"@, decimal_text(v.distance_spacing), v.distance_spacing.digits == 0, true)
            + field_text("BeatDivisor"@, decimal_text(v.beat_divisor), v.beat_divisor.digits == 0, true)
            + field_text("GridSize"@, int_text(v.grid_size as int), v.grid_size == 0, true)
            + field_text("TimelineZoom"@, decimal_text(v.timeline_zoom), v.timeline_zoom.digits == 0, true)
    }

    /// Reads the section from characters.
    pub fn parse_chars(s: &[char]) -> (r: Result<EditorSection, BeatmapParseError>)
        ensures
            result_view(r) == EditorSection::spec_parse(s@),
    {
        let ls = lines_of(s);
        let bookmarks = match get_bookmarks(&ls) {
            Err(e) => {
                return Err(e);
            },
            Ok(v) => v,
        };
        let distance_spacing = match get_decimal_field(&ls, "DistanceSpacing") {
            Err(e) => {
                return Err(e);
            },
            Ok(v) => v,
        };
        let beat_divisor = match get_decimal_field(&ls, "BeatDivisor") {
            Err(e) => {
                return Err(e);
            },
            Ok(v) => v,
        };
        let grid_size = match get_i32_field(&ls, "GridSize") {
            Err(e) => {
                return Err(e);
            },
            Ok(v) => v,
        };
        let timeline_zoom = match get_decimal_field(&ls, "TimelineZoom") {
            Err(e) => {
                return Err(e);
            },
            Ok(v) => v,
        };
        Ok(EditorSection {
            bookmarks,
            distance_spacing,
            beat_divisor,
            grid_size,
            timeline_zoom,
        })
    }

    /// Reads the section from text.
    pub fn parse(s: &str) -> (r: Result<EditorSection, BeatmapParseError>)
        ensures
            result_view(r) == EditorSection::spec_parse(s@),
    {
        let c = chars_of(s);
        EditorSection::parse_chars(&c)
    }

    /// Appends the canonical section to `buf`.
    pub fn write_to(&self, buf: &mut String)
        ensures
            final(buf)@ == old(buf)@ + EditorSection::spec_text(self@),
    {
        let ghost start = buf@;
        {
            let t = i32s_string(&self.bookmarks);
            write_field(buf, "Bookmarks", t.as_str(), self.bookmarks.len() == 0, true);
        }
        let ghost mut written = field_text("Bookmarks"@, i32s_text(self@.bookmarks), self@.bookmarks.len() == 0, true);
        write_decimal_field(buf, "DistanceSpacing", &self.distance_spacing, true);
        proof {
            let line = field_text("DistanceSpacing"@, decimal_text(self@.distance_spacing), self@.distance_spacing.digits == 0, true);
            lemma_concat_associative(start, written, line);
            written = written + line;
        }
        write_decimal_field(buf, "BeatDivisor", &self.beat_divisor, true);
        proof {
            let line = field_text("BeatDivisor"@, decimal_text(self@.beat_divisor), self@.beat_divisor.digits == 0, true);
            lemma_concat_associative(start, written, line);
            written = written + line;
        }
        write_i32_field(buf, "GridSize", self.grid_size, true);
        proof {
            let line = field_text("GridSize"@, int_text(self@.grid_size as int), self@.grid_size == 0, true);
            lemma_concat_associative(start, written, line);
            written = written + line;
        }
        write_decimal_field(buf, "TimelineZoom", &self.timeline_zoom, true);
        proof {
            let line = field_text("TimelineZoom"@, decimal_text(self@.timeline_zoom), self@.timeline_zoom.digits == 0, true);
            lemma_concat_associative(start, written, line);
            written = written + line;
        }
    }

    /// The canonical section.
    pub fn serialize(&self) -> (r: String)
        ensures
            r@ == EditorSection::spec_text(self@),
    {
        let mut buf = String::new();
        self.write_to(&mut buf);
        buf
    }

    /// The canonical section.
    pub fn to_string(&self) -> (r: String)
        ensures
            r@ == EditorSection::spec_text(self@),
    {
        self.serialize()
    }
}

} // verus!

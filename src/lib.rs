//! A codec for the osu! beatmap text format: it parses a document into
//! sections and records, and serialises them back to canonical text.
use vstd::prelude::*;
use crate::error::{result_view, BeatmapParseError, ParseFault};
use crate::section::colours::{Colours, ColoursView};
use crate::section::difficulty::{DifficultySection, DifficultySectionView};
use crate::section::editor::{EditorSection, EditorSectionView};
use crate::section::events::{Event, EventView};
use crate::section::general::{GeneralSection, GeneralSectionView};
use crate::section::hit_objects::{HitObject, HitObjectView};
use crate::section::metadata::{MetadataSection, MetadataSectionView};
use crate::section::timing_points::TimingPoint;
use crate::section::{list_text, parse_lines, CommaListOf};
use crate::text::{chars_of, copy_range, find_text, find_text_chars, lines, trim, trim_chars};

pub mod error;
pub mod number;
pub mod section;
pub mod text;
pub mod types;

verus! {

/// Number of sections a document can hold.
pub const SECTION_COUNT: usize = 8;

/// The header of section `k`, in the order the sections must appear.
pub open spec fn header_text(k: int) -> Seq<char> {
    if k == 0 {
        "[General]"@
    } else if k == 1 {
        "[Editor]"@
    } else if k == 2 {
        "[Metadata]"@
    } else if k == 3 {
        "[Difficulty]"@
    } else if k == 4 {
        "[Events]"@
    } else if k == 5 {
        "[TimingPoints]"@
    } else if k == 6 {
        "[Colours]"@
    } else {
        "[HitObjects]"@
    }
}

/// Whether a document must hold section `k`.
pub open spec fn mandatory(k: int) -> bool {
    k != 5 && k != 6
}

/// The header of section `k`.
pub fn header(k: usize) -> (h: &'static str)
    requires
        k < SECTION_COUNT,
    ensures
        h@ == header_text(k as int),
{
    if k == 0 {
        "[General]"
    } else if k == 1 {
        "[Editor]"
    } else if k == 2 {
        "[Metadata]"
    } else if k == 3 {
        "[Difficulty]"
    } else if k == 4 {
        "[Events]"
    } else if k == 5 {
        "[TimingPoints]"
    } else if k == 6 {
        "[Colours]"
    } else {
        "[HitObjects]"
    }
}

/// Where the first section from `j` on whose header occurs in `s` starts,
/// or the end of `s` when none does.
pub open spec fn next_start(s: Seq<char>, j: int) -> int
    decreases 8 - j,
{
    if j >= 8 {
        s.len() as int
    } else {
        match find_text(s, header_text(j)) {
            Some(p) => p,
            None => next_start(s, j + 1),
        }
    }
}

/// The text of section `k` of `s`, or `None` when its header does not occur.
/// Each header is found by its first occurrence anywhere in the text; the
/// section runs from the end of its header to the start of the next header
/// that occurs, in declaration order, and is trimmed. A section whose next
/// header comes before it is empty.
pub open spec fn section_text(s: Seq<char>, k: int) -> Option<Seq<char>> {
    match find_text(s, header_text(k)) {
        None => None,
        Some(p) => {
            let a = p + header_text(k).len();
            let b = next_start(s, k + 1);
            if a <= b {
                Some(trim(s.subrange(a, b)))
            } else {
                Some(Seq::empty())
            }
        },
    }
}

/// The first mandatory section from `k` on whose header is missing.
pub open spec fn missing_from(s: Seq<char>, k: int) -> Option<int>
    decreases 8 - k,
{
    if k >= 8 {
        None
    } else if mandatory(k) && find_text(s, header_text(k)) is None {
        Some(k)
    } else {
        missing_from(s, k + 1)
    }
}

/// The text of a section that is present.
pub open spec fn present_text(s: Seq<char>, k: int) -> Seq<char> {
    match section_text(s, k) {
        Some(t) => t,
        None => Seq::empty(),
    }
}

/// The model of [`BeatmapLevel`].
pub struct BeatmapLevelView {
    pub general: GeneralSectionView,
    pub editor: EditorSectionView,
    pub metadata: MetadataSectionView,
    pub difficulty: DifficultySectionView,
    pub events: Seq<EventView>,
    pub timing_points: Seq<TimingPoint>,
    pub colours: ColoursView,
    pub hit_objects: Seq<HitObjectView>,
}

/// A whole beatmap: each of its sections, parsed.
#[derive(Debug)]
pub struct BeatmapLevel {
    pub general: GeneralSection,
    pub editor: EditorSection,
    pub metadata: MetadataSection,
    pub difficulty: DifficultySection,
    pub events: CommaListOf<Event>,
    pub timing_points: CommaListOf<TimingPoint>,
    pub colours: Colours,
    pub hit_objects: CommaListOf<HitObject>,
}

impl View for BeatmapLevel {
    type V = BeatmapLevelView;

    open spec fn view(&self) -> BeatmapLevelView {
        BeatmapLevelView {
            general: self.general@,
            editor: self.editor@,
            metadata: self.metadata@,
            difficulty: self.difficulty@,
            events: self.events@,
            timing_points: self.timing_points@,
            colours: self.colours@,
            hit_objects: self.hit_objects@,
        }
    }
}

/// The timing points of the document `s`: none when the section is absent.
pub open spec fn timing_points_of(s: Seq<char>) -> Result<Seq<TimingPoint>, ParseFault> {
    match section_text(s, 5) {
        None => Ok(Seq::empty()),
        Some(t) => parse_lines::<TimingPoint>(lines(t)),
    }
}

/// The colours of the document `s`: none set when the section is absent.
pub open spec fn colours_of_document(s: Seq<char>) -> Result<ColoursView, ParseFault> {
    match section_text(s, 6) {
        None => Ok(crate::section::colours::no_colours()),
        Some(t) => Colours::spec_parse(t),
    }
}

/// The four field-block sections of the document `s`, in order.
pub open spec fn blocks_of(s: Seq<char>) -> Result<
    (GeneralSectionView, EditorSectionView, MetadataSectionView, DifficultySectionView),
    ParseFault,
> {
    match GeneralSection::spec_parse(present_text(s, 0)) {
        Err(e) => Err(e),
        Ok(general) => match EditorSection::spec_parse(present_text(s, 1)) {
            Err(e) => Err(e),
            Ok(editor) => match MetadataSection::spec_parse(present_text(s, 2)) {
                Err(e) => Err(e),
                Ok(metadata) => match DifficultySection::spec_parse(present_text(s, 3)) {
                    Err(e) => Err(e),
                    Ok(difficulty) => Ok((general, editor, metadata, difficulty)),
                },
            },
        },
    }
}

/// The list sections and the colours of the document `s`, in order.
pub open spec fn lists_of(s: Seq<char>) -> Result<
    (Seq<EventView>, Seq<TimingPoint>, ColoursView, Seq<HitObjectView>),
    ParseFault,
> {
    match parse_lines::<Event>(lines(present_text(s, 4))) {
        Err(e) => Err(e),
        Ok(events) => match timing_points_of(s) {
            Err(e) => Err(e),
            Ok(timing_points) => match colours_of_document(s) {
                Err(e) => Err(e),
                Ok(colours) => match parse_lines::<HitObject>(lines(present_text(s, 7))) {
                    Err(e) => Err(e),
                    Ok(hit_objects) => Ok((events, timing_points, colours, hit_objects)),
                },
            },
        },
    }
}

impl BeatmapLevel {
    /// The document that `s` spells. A missing mandatory header fails with
    /// `SectionNotFound` naming the first one missing, before any section is
    /// read; then the sections are parsed in order and the first error is
    /// returned unchanged.
    pub open spec fn spec_parse(s: Seq<char>) -> Result<BeatmapLevelView, ParseFault> {
        match missing_from(s, 0) {
            Some(k) => Err(ParseFault::SectionNotFound(header_text(k))),
            None => match blocks_of(s) {
                Err(e) => Err(e),
                Ok((general, editor, metadata, difficulty)) => match lists_of(s) {
                    Err(e) => Err(e),
                    Ok((events, timing_points, colours, hit_objects)) => Ok(
                        BeatmapLevelView {
                            general,
                            editor,
                            metadata,
                            difficulty,
                            events,
                            timing_points,
                            colours,
                            hit_objects,
                        },
                    ),
                },
            },
        }
    }

    /// The version line and the four field-block sections with their headers.
    pub open spec fn head_text(v: BeatmapLevelView) -> Seq<char> {
        "osu file format v14\n\n[General]\n"@ + GeneralSection::spec_text(v.general)
            + "\n[Editor]\n"@ + EditorSection::spec_text(v.editor) + "\n[Metadata]\n"@
            + MetadataSection::spec_text(v.metadata) + "\n[Difficulty]\n"@
            + DifficultySection::spec_text(v.difficulty)
    }

    /// The four list sections and the colours, with their headers.
    pub open spec fn tail_text(v: BeatmapLevelView) -> Seq<char> {
        "\n[Events]\n"@ + list_text::<Event>(v.events) + "\n[TimingPoints]\n"@ + list_text::<
            TimingPoint,
        >(v.timing_points) + "\n[Colours]\n"@ + Colours::spec_text(v.colours)
            + "\n[HitObjects]\n"@ + list_text::<HitObject>(v.hit_objects)
    }

    /// The canonical document: the version line, a blank line, then every
    /// section under its header, each followed by a blank line but the last.
    pub open spec fn spec_text(v: BeatmapLevelView) -> Seq<char> {
        BeatmapLevel::head_text(v) + BeatmapLevel::tail_text(v)
    }
}

fn next_start_of(c: &[char], j: usize) -> (r: usize)
    requires
        j <= SECTION_COUNT,
    ensures
        r as int == next_start(c@, j as int),
        r <= c@.len(),
{
    let mut i: usize = j;
    while i < SECTION_COUNT
        invariant
            j <= i <= SECTION_COUNT,
            next_start(c@, i as int) == next_start(c@, j as int),
        decreases SECTION_COUNT - i,
    {
        let h = chars_of(header(i));
        match find_text_chars(c, &h) {
            Some(p) => {
                return p;
            },
            None => {},
        }
        i += 1;
    }
    c.len()
}

fn section_of(c: &[char], k: usize) -> (r: Option<Vec<char>>)
    requires
        k < SECTION_COUNT,
    ensures
        match r {
            None => section_text(c@, k as int) is None,
            Some(t) => section_text(c@, k as int) == Some(t@),
        },
{
    let h = chars_of(header(k));
    match find_text_chars(c, &h) {
        None => None,
        Some(p) => {
            assert(p + h@.len() <= c@.len() && c@.len() == c.len());
            let a: usize = p + h.len();
            let b: usize = next_start_of(c, k + 1);
            if a <= b {
                let raw = copy_range(c, a, b);
                Some(trim_chars(&raw))
            } else {
                Some(Vec::new())
            }
        },
    }
}

fn missing_of(c: &[char]) -> (r: Option<usize>)
    ensures
        match r {
            None => missing_from(c@, 0) is None,
            Some(k) => missing_from(c@, 0) == Some(k as int) && k < SECTION_COUNT,
        },
{
    let mut k: usize = 0;
    while k < SECTION_COUNT
        invariant
            k <= SECTION_COUNT,
            missing_from(c@, k as int) == missing_from(c@, 0),
        decreases SECTION_COUNT - k,
    {
        if k != 5 && k != 6 {
            let h = chars_of(header(k));
            if find_text_chars(c, &h).is_none() {
                return Some(k);
            }
        }
        k += 1;
    }
    None
}

fn present_of(c: &[char], k: usize) -> (r: Vec<char>)
    requires
        k < SECTION_COUNT,
    ensures
        r@ == present_text(c@, k as int),
{
    match section_of(c, k) {
        Some(t) => t,
        None => Vec::new(),
    }
}

fn parse_blocks(c: &[char]) -> (r: Result<
    (GeneralSection, EditorSection, MetadataSection, DifficultySection),
    BeatmapParseError,
>)
    ensures
        match r {
            Ok((g, e, m, d)) => blocks_of(c@) == Ok::<
                (GeneralSectionView, EditorSectionView, MetadataSectionView, DifficultySectionView),
                ParseFault,
            >((g@, e@, m@, d@)),
            Err(err) => blocks_of(c@) == Err::<
                (GeneralSectionView, EditorSectionView, MetadataSectionView, DifficultySectionView),
                ParseFault,
            >(err@),
        },
{
    let general = match GeneralSection::parse_chars(&present_of(c, 0)) {
        Err(e) => {
            return Err(e);
        },
        Ok(v) => v,
    };
    let editor = match EditorSection::parse_chars(&present_of(c, 1)) {
        Err(e) => {
            return Err(e);
        },
        Ok(v) => v,
    };
    let metadata = match MetadataSection::parse_chars(&present_of(c, 2)) {
        Err(e) => {
            return Err(e);
        },
        Ok(v) => v,
    };
    let difficulty = match DifficultySection::parse_chars(&present_of(c, 3)) {
        Err(e) => {
            return Err(e);
        },
        Ok(v) => v,
    };
    Ok((general, editor, metadata, difficulty))
}

fn parse_lists(c: &[char]) -> (r: Result<
    (CommaListOf<Event>, CommaListOf<TimingPoint>, Colours, CommaListOf<HitObject>),
    BeatmapParseError,
>)
    ensures
        match r {
            Ok((e, t, k, h)) => lists_of(c@) == Ok::<
                (Seq<EventView>, Seq<TimingPoint>, ColoursView, Seq<HitObjectView>),
                ParseFault,
            >((e@, t@, k@, h@)),
            Err(err) => lists_of(c@) == Err::<
                (Seq<EventView>, Seq<TimingPoint>, ColoursView, Seq<HitObjectView>),
                ParseFault,
            >(err@),
        },
{
    let events = match CommaListOf::<Event>::parse_chars(&present_of(c, 4)) {
        Err(e) => {
            return Err(e);
        },
        Ok(v) => v,
    };
    let timing_points = match section_of(c, 5) {
        None => CommaListOf::new(),
        Some(t) => match CommaListOf::<TimingPoint>::parse_chars(&t) {
            Err(e) => {
                return Err(e);
            },
            Ok(v) => v,
        },
    };
    let colours = match section_of(c, 6) {
        None => Colours::new(),
        Some(t) => match Colours::parse_chars(&t) {
            Err(e) => {
                return Err(e);
            },
            Ok(v) => v,
        },
    };
    let hit_objects = match CommaListOf::<HitObject>::parse_chars(&present_of(c, 7)) {
        Err(e) => {
            return Err(e);
        },
        Ok(v) => v,
    };
    proof {
        assert(timing_points@ =~= match timing_points_of(c@) {
            Ok(v) => v,
            Err(_) => timing_points@,
        });
    }
    Ok((events, timing_points, colours, hit_objects))
}

impl BeatmapLevel {
    /// A document whose sections all take their defaults.
    pub fn new() -> (r: BeatmapLevel)
        ensures
            r.general@ == GeneralSection::spec_default(),
            r.editor@ == EditorSection::spec_default(),
            r.metadata@ == MetadataSection::spec_default(),
            r.difficulty@ == DifficultySection::spec_default(),
            r.events@.len() == 0,
            r.timing_points@.len() == 0,
            r.colours@ == crate::section::colours::no_colours(),
            r.hit_objects@.len() == 0,
    {
        BeatmapLevel {
            general: GeneralSection::new(),
            editor: EditorSection::new(),
            metadata: MetadataSection::new(),
            difficulty: DifficultySection::new(),
            events: CommaListOf::new(),
            timing_points: CommaListOf::new(),
            colours: Colours::new(),
            hit_objects: CommaListOf::new(),
        }
    }

    /// Parses a whole document from characters.
    #[verifier::rlimit(60)]
    pub fn parse_chars(c: &[char]) -> (r: Result<BeatmapLevel, BeatmapParseError>)
        ensures
            result_view(r) == BeatmapLevel::spec_parse(c@),
    {
        match missing_of(c) {
            Some(k) => {
                return Err(
                    BeatmapParseError::SectionNotFound { section: header(k).to_owned() },
                );
            },
            None => {},
        }
        let (general, editor, metadata, difficulty) = match parse_blocks(c) {
            Err(e) => {
                return Err(e);
            },
            Ok(v) => v,
        };
        let (events, timing_points, colours, hit_objects) = match parse_lists(c) {
            Err(e) => {
                return Err(e);
            },
            Ok(v) => v,
        };
        Ok(
            BeatmapLevel {
                general,
                editor,
                metadata,
                difficulty,
                events,
                timing_points,
                colours,
                hit_objects,
            },
        )
    }

    /// Parses a whole document.
    pub fn parse(s: &str) -> (r: Result<BeatmapLevel, BeatmapParseError>)
        ensures
            result_view(r) == BeatmapLevel::spec_parse(s@),
    {
        let c = chars_of(s);
        BeatmapLevel::parse_chars(&c)
    }

    #[verifier::rlimit(60)]
    fn write_head(&self, buf: &mut String)
        ensures
            final(buf)@ == old(buf)@ + BeatmapLevel::head_text(self@),
    {
        buf.append("osu file format v14\n\n[General]\n");
        self.general.write_to(buf);
        buf.append("\n[Editor]\n");
        self.editor.write_to(buf);
        buf.append("\n[Metadata]\n");
        self.metadata.write_to(buf);
        buf.append("\n[Difficulty]\n");
        self.difficulty.write_to(buf);
        proof {
            assert(buf@ =~= old(buf)@ + BeatmapLevel::head_text(self@));
        }
    }

    fn write_tail(&self, buf: &mut String)
        ensures
            final(buf)@ == old(buf)@ + BeatmapLevel::tail_text(self@),
    {
        buf.append("\n[Events]\n");
        self.events.write_to(buf);
        buf.append("\n[TimingPoints]\n");
        self.timing_points.write_to(buf);
        buf.append("\n[Colours]\n");
        self.colours.write_to(buf);
        buf.append("\n[HitObjects]\n");
        self.hit_objects.write_to(buf);
        proof {
            assert(buf@ =~= old(buf)@ + BeatmapLevel::tail_text(self@));
        }
    }

    /// Appends the canonical document to `buf`.
    pub fn write_to(&self, buf: &mut String)
        ensures
            final(buf)@ == old(buf)@ + BeatmapLevel::spec_text(self@),
    {
        let ghost start = buf@;
        self.write_head(buf);
        self.write_tail(buf);
        proof {
            vstd::seq_lib::lemma_concat_associative(
                start,
                BeatmapLevel::head_text(self@),
                BeatmapLevel::tail_text(self@),
            );
        }
    }

    /// The canonical document.
    pub fn serialize(&self) -> (r: String)
        ensures
            r@ == BeatmapLevel::spec_text(self@),
    {
        let mut buf = String::new();
        self.write_to(&mut buf);
        buf
    }

    /// The canonical document.
    pub fn to_string(&self) -> (r: String)
        ensures
            r@ == BeatmapLevel::spec_text(self@),
    {
        self.serialize()
    }
}

proof fn lemma_first_missing(s: Seq<char>, j: int, k: int)
    requires
        0 <= j <= k < 8,
        mandatory(k),
        find_text(s, header_text(k)) is None,
        forall|i: int| 0 <= i < k && mandatory(i) ==> find_text(s, #[trigger] header_text(i)) is Some,
    ensures
        missing_from(s, j) == Some(k),
    decreases k - j,
{
    if j < k {
        lemma_first_missing(s, j + 1, k);
    }
}

/// A missing mandatory section fails the whole parse with `SectionNotFound`
/// naming exactly its header; when several are missing, the first one in
/// document order is named.
pub proof fn law_missing_section_is_named(s: Seq<char>, k: int)
    requires
        0 <= k < 8,
        mandatory(k),
        find_text(s, header_text(k)) is None,
        forall|i: int| 0 <= i < k && mandatory(i) ==> find_text(s, #[trigger] header_text(i)) is Some,
    ensures
        BeatmapLevel::spec_parse(s) == Err::<BeatmapLevelView, ParseFault>(
            ParseFault::SectionNotFound(header_text(k)),
        ),
{
    lemma_first_missing(s, 0, k);
}

} // verus!

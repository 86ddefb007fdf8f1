//! The two section grammars: blocks of `Key:Value` fields, and lists with
//! one record per line.
use vstd::prelude::*;
use crate::error::{invalid, result_view, BeatmapParseError, ParseFault};
use crate::number::{
    decimal_of, decimal_text, i32_of, int_text, parse_decimal, parse_i32, push_i32, Decimal,
};
use crate::text::{
    chars_of, find_text, find_text_chars, join, keep_nonempty, lemma_lines_of_joined, line_shaped, lines,
    lines_of, skip_front, split, split_once, split_once_chars, string_of, trim, trim_all,
    trim_chars, views,
};
use crate::types::general::{Countdown, Gamemode, OverlayPosition, SampleSet};
use crate::types::{bool_of, OsuBool};

pub mod colours;
pub mod difficulty;
pub mod editor;
pub mod events;
pub mod general;
pub mod hit_objects;
pub mod metadata;
pub mod timing_points;

verus! {

/// Index of the first line at or after `i` that contains `name`.
pub open spec fn line_with(ls: Seq<Seq<char>>, name: Seq<char>, i: int) -> Option<int>
    decreases ls.len() - i,
{
    if i < 0 || i >= ls.len() {
        None
    } else if find_text(ls[i], name) is Some {
        Some(i)
    } else {
        line_with(ls, name, i + 1)
    }
}

/// The raw value of the field `name`: the trimmed text after the first `:` of
/// the first line that contains `name`, `None` when no line does.
pub open spec fn field_value(ls: Seq<Seq<char>>, name: Seq<char>) -> Result<
    Option<Seq<char>>,
    ParseFault,
> {
    match line_with(ls, name, 0) {
        None => Ok(None),
        Some(i) => match split_once(ls[i], ':') {
            None => Err(ParseFault::NotValidPair),
            Some((_, v)) => Ok(Some(trim(v))),
        },
    }
}

/// The field `name` read by `read`: `default` when it is absent, a format error
/// naming the field when `read` refuses its value.
pub open spec fn field_as<T>(
    ls: Seq<Seq<char>>,
    name: Seq<char>,
    default: T,
    read: spec_fn(Seq<char>) -> Option<T>,
) -> Result<T, ParseFault> {
    match field_value(ls, name) {
        Err(e) => Err(e),
        Ok(None) => Ok(default),
        Ok(Some(v)) => match read(v) {
            Some(x) => Ok(x),
            None => Err(ParseFault::InvalidFormat(name)),
        },
    }
}

/// The line that serialises a field: nothing when the value is its type's
/// default, else `name:value` or `name: value` and a newline.
pub open spec fn field_text(name: Seq<char>, value: Seq<char>, is_default: bool, spaced: bool) -> Seq<
    char,
> {
    if is_default {
        Seq::empty()
    } else if spaced {
        name + ": "@ + value + "\n"@
    } else {
        name + ":"@ + value + "\n"@
    }
}

/// The model of the raw value of a field.
pub open spec fn raw_view(r: Result<Option<Vec<char>>, BeatmapParseError>) -> Result<
    Option<Seq<char>>,
    ParseFault,
> {
    match r {
        Ok(None) => Ok(None),
        Ok(Some(v)) => Ok(Some(v@)),
        Err(e) => Err(e@),
    }
}

/// The raw value of the field `name` in the lines `ls`.
pub fn get_field_value(ls: &Vec<Vec<char>>, name: &str) -> (r: Result<
    Option<Vec<char>>,
    BeatmapParseError,
>)
    ensures
        raw_view(r) == field_value(views(ls@), name@),
{
    let key = chars_of(name);
    let ghost lv = views(ls@);
    let mut i: usize = 0;
    while i < ls.len()
        invariant
            i <= ls@.len(),
            lv == views(ls@),
            key@ == name@,
            line_with(lv, name@, i as int) == line_with(lv, name@, 0),
        decreases ls.len() - i,
    {
        if find_text_chars(&ls[i], &key).is_some() {
            return match split_once_chars(&ls[i], ':') {
                None => Err(BeatmapParseError::NotValidPair),
                Some((_, v)) => Ok(Some(trim_chars(&v))),
            };
        }
        i += 1;
    }
    Ok(None)
}

/// The text field `name`, empty when absent.
pub fn get_text_field(ls: &Vec<Vec<char>>, name: &str) -> (r: Result<String, BeatmapParseError>)
    ensures
        result_view(r) == field_as(views(ls@), name@, Seq::empty(), |v: Seq<char>| Some(v)),
{
    match get_field_value(ls, name) {
        Err(e) => Err(e),
        Ok(None) => Ok(String::new()),
        Ok(Some(v)) => Ok(string_of(&v)),
    }
}

/// The integer field `name`, zero when absent.
pub fn get_i32_field(ls: &Vec<Vec<char>>, name: &str) -> (r: Result<i32, BeatmapParseError>)
    ensures
        result_view(r) == field_as(views(ls@), name@, 0i32, |v: Seq<char>| i32_of(v)),
{
    match get_field_value(ls, name) {
        Err(e) => Err(e),
        Ok(None) => Ok(0),
        Ok(Some(v)) => match parse_i32(&v) {
            Some(n) => Ok(n),
            None => Err(invalid(name)),
        },
    }
}

/// The decimal field `name`, zero when absent.
pub fn get_decimal_field(ls: &Vec<Vec<char>>, name: &str) -> (r: Result<Decimal, BeatmapParseError>)
    ensures
        result_view(r) == field_as(
            views(ls@),
            name@,
            Decimal { negative: false, digits: 0, scale: 0 },
            |v: Seq<char>| decimal_of(v),
        ),
        r matches Ok(d) ==> d.wf(),
{
    match get_field_value(ls, name) {
        Err(e) => Err(e),
        Ok(None) => Ok(Decimal::zero()),
        Ok(Some(v)) => match parse_decimal(&v) {
            Some(n) => Ok(n),
            None => Err(invalid(name)),
        },
    }
}

/// The boolean field `name`, false when absent.
pub fn get_bool_field(ls: &Vec<Vec<char>>, name: &str) -> (r: Result<OsuBool, BeatmapParseError>)
    ensures
        result_view(r) == field_as(
            views(ls@),
            name@,
            OsuBool(false),
            |v: Seq<char>|
                match bool_of(v) {
                    Some(b) => Some(OsuBool(b)),
                    None => None,
                },
        ),
{
    match get_field_value(ls, name) {
        Err(e) => Err(e),
        Ok(None) => Ok(OsuBool(false)),
        Ok(Some(v)) => match OsuBool::parse_chars(&v) {
            Ok(b) => Ok(b),
            Err(_) => Err(invalid(name)),
        },
    }
}

/// The countdown field `name`, [`Countdown::NORMAL`] when absent.
pub fn get_countdown_field(ls: &Vec<Vec<char>>, name: &str) -> (r: Result<
    Countdown,
    BeatmapParseError,
>)
    ensures
        result_view(r) == field_as(
            views(ls@),
            name@,
            Countdown::NORMAL,
            |v: Seq<char>|
                match Countdown::spec_parse(v) {
                    Ok(x) => Some(x),
                    Err(_) => None,
                },
        ),
{
    match get_field_value(ls, name) {
        Err(e) => Err(e),
        Ok(None) => Ok(Countdown::NORMAL),
        Ok(Some(v)) => match Countdown::parse_chars(&v) {
            Ok(x) => Ok(x),
            Err(_) => Err(invalid(name)),
        },
    }
}

/// The game mode field `name`, [`Gamemode::STD`] when absent.
pub fn get_gamemode_field(ls: &Vec<Vec<char>>, name: &str) -> (r: Result<
    Gamemode,
    BeatmapParseError,
>)
    ensures
        result_view(r) == field_as(
            views(ls@),
            name@,
            Gamemode::STD,
            |v: Seq<char>|
                match Gamemode::spec_parse(v) {
                    Ok(x) => Some(x),
                    Err(_) => None,
                },
        ),
{
    match get_field_value(ls, name) {
        Err(e) => Err(e),
        Ok(None) => Ok(Gamemode::STD),
        Ok(Some(v)) => match Gamemode::parse_chars(&v) {
            Ok(x) => Ok(x),
            Err(_) => Err(invalid(name)),
        },
    }
}

/// The overlay position field `name`, [`OverlayPosition::NOCHANGE`] when absent.
pub fn get_overlay_field(ls: &Vec<Vec<char>>, name: &str) -> (r: Result<
    OverlayPosition,
    BeatmapParseError,
>)
    ensures
        result_view(r) == field_as(
            views(ls@),
            name@,
            OverlayPosition::NOCHANGE,
            |v: Seq<char>|
                match OverlayPosition::spec_parse(v) {
                    Ok(x) => Some(x),
                    Err(_) => None,
                },
        ),
{
    match get_field_value(ls, name) {
        Err(e) => Err(e),
        Ok(None) => Ok(OverlayPosition::NOCHANGE),
        Ok(Some(v)) => match OverlayPosition::parse_chars(&v) {
            Ok(x) => Ok(x),
            Err(_) => Err(invalid(name)),
        },
    }
}

/// The sample set field `name`, [`SampleSet::NORMAL`] when absent.
pub fn get_sample_set_field(ls: &Vec<Vec<char>>, name: &str) -> (r: Result<
    SampleSet,
    BeatmapParseError,
>)
    ensures
        result_view(r) == field_as(
            views(ls@),
            name@,
            SampleSet::NORMAL,
            |v: Seq<char>|
                match SampleSet::spec_parse(v) {
                    Ok(x) => Some(x),
                    Err(_) => None,
                },
        ),
{
    match get_field_value(ls, name) {
        Err(e) => Err(e),
        Ok(None) => Ok(SampleSet::NORMAL),
        Ok(Some(v)) => match SampleSet::parse_chars(&v) {
            Ok(x) => Ok(x),
            Err(_) => Err(invalid(name)),
        },
    }
}

/// The decimal spelling of `n`.
pub fn int_string(n: i32) -> (r: String)
    ensures
        r@ == int_text(n as int),
{
    let mut buf = String::new();
    push_i32(&mut buf, n);
    buf
}

/// Appends the line of the field `name` with the text `value` to `buf`.
pub fn write_field(buf: &mut String, name: &str, value: &str, is_default: bool, spaced: bool)
    ensures
        final(buf)@ == old(buf)@ + field_text(name@, value@, is_default, spaced),
{
    if is_default {
        return ;
    }
    buf.append(name);
    if spaced {
        buf.append(": ");
    } else {
        buf.append(":");
    }
    buf.append(value);
    buf.append("\n");
}

/// Appends the line of the text field `name` to `buf`.
pub fn write_text_field(buf: &mut String, name: &str, v: &String, spaced: bool)
    ensures
        final(buf)@ == old(buf)@ + field_text(name@, v@, v@.len() == 0, spaced),
{
    write_field(buf, name, v.as_str(), v.as_str().is_empty(), spaced);
}

/// Appends the line of the integer field `name` to `buf`.
pub fn write_i32_field(buf: &mut String, name: &str, v: i32, spaced: bool)
    ensures
        final(buf)@ == old(buf)@ + field_text(name@, int_text(v as int), v == 0, spaced),
{
    let t = int_string(v);
    write_field(buf, name, t.as_str(), v == 0, spaced);
}

/// Appends the line of the decimal field `name` to `buf`.
pub fn write_decimal_field(buf: &mut String, name: &str, v: &Decimal, spaced: bool)
    ensures
        final(buf)@ == old(buf)@ + field_text(name@, decimal_text(*v), v.digits == 0, spaced),
{
    let t = v.to_string();
    write_field(buf, name, t.as_str(), v.is_zero(), spaced);
}

/// Appends the line of the boolean field `name` to `buf`.
pub fn write_bool_field(buf: &mut String, name: &str, v: &OsuBool, spaced: bool)
    ensures
        final(buf)@ == old(buf)@ + field_text(name@, v.spec_text(), !v.0, spaced),
{
    let t = v.to_string();
    write_field(buf, name, t.as_str(), v.is_default(), spaced);
}

/// Appends the line of the countdown field `name` to `buf`.
pub fn write_countdown_field(buf: &mut String, name: &str, v: &Countdown, spaced: bool)
    ensures
        final(buf)@ == old(buf)@ + field_text(name@, v.spec_text(), *v == Countdown::NORMAL, spaced),
{
    let t = v.to_string();
    write_field(buf, name, t.as_str(), v.is_default(), spaced);
}

/// Appends the line of the game mode field `name` to `buf`.
pub fn write_gamemode_field(buf: &mut String, name: &str, v: &Gamemode, spaced: bool)
    ensures
        final(buf)@ == old(buf)@ + field_text(name@, v.spec_text(), *v == Gamemode::STD, spaced),
{
    let t = v.to_string();
    write_field(buf, name, t.as_str(), v.is_default(), spaced);
}

/// Appends the line of the overlay position field `name` to `buf`.
pub fn write_overlay_field(buf: &mut String, name: &str, v: &OverlayPosition, spaced: bool)
    ensures
        final(buf)@ == old(buf)@ + field_text(
            name@,
            v.spec_text(),
            *v == OverlayPosition::NOCHANGE,
            spaced,
        ),
{
    let t = v.to_string();
    write_field(buf, name, t.as_str(), v.is_default(), spaced);
}

/// Appends the line of the sample set field `name` to `buf`.
pub fn write_sample_set_field(buf: &mut String, name: &str, v: &SampleSet, spaced: bool)
    ensures
        final(buf)@ == old(buf)@ + field_text(name@, v.spec_text(), *v == SampleSet::NORMAL, spaced),
{
    let t = v.to_string();
    write_field(buf, name, t.as_str(), v.is_default(), spaced);
}

/// An element of a list section: a record on one line.
pub trait CommaListElement: Sized + View {
    /// What the line `s` parses to. A commentary or storyboard line gives the
    /// error of that name, which the list skips.
    spec fn spec_parse(s: Seq<char>) -> Result<Self::V, ParseFault>;

    /// The line that serialises `v`.
    spec fn spec_text(v: Self::V) -> Seq<char>;

    /// Parses one line.
    fn parse_chars(s: &[char]) -> (r: Result<Self, BeatmapParseError>)
        ensures
            result_view(r) == Self::spec_parse(s@),
    ;

    /// Appends the line that serialises this element, without a newline.
    fn write_to(&self, buf: &mut String)
        ensures
            final(buf)@ == old(buf)@ + Self::spec_text(self@),
    ;
}

/// Whether a list skips a line that failed with `e`.
pub open spec fn skippable(e: ParseFault) -> bool {
    e is CommentaryEntry || e is StoryboardEntry
}

/// The elements that the lines `ls` parse to, skipping commentary and
/// storyboard lines; the first other error aborts the whole list.
pub open spec fn parse_lines<T: CommaListElement>(ls: Seq<Seq<char>>) -> Result<Seq<T::V>, ParseFault>
    decreases ls.len(),
{
    if ls.len() == 0 {
        Ok(Seq::empty())
    } else {
        match parse_lines::<T>(ls.drop_last()) {
            Err(e) => Err(e),
            Ok(p) => match T::spec_parse(ls.last()) {
                Ok(x) => Ok(p.push(x)),
                Err(e) => if skippable(e) {
                    Ok(p)
                } else {
                    Err(e)
                },
            },
        }
    }
}

proof fn lemma_parse_lines_err<T: CommaListElement>(ls: Seq<Seq<char>>, k: int)
    requires
        0 <= k <= ls.len(),
        parse_lines::<T>(ls.subrange(0, k)) is Err,
    ensures
        parse_lines::<T>(ls) == parse_lines::<T>(ls.subrange(0, k)),
    decreases ls.len(),
{
    if k == ls.len() {
        assert(ls.subrange(0, k) =~= ls);
    } else {
        assert(ls.drop_last().subrange(0, k) =~= ls.subrange(0, k));
        lemma_parse_lines_err::<T>(ls.drop_last(), k);
    }
}

/// One line per element, each ending in a newline.
pub open spec fn list_text<T: CommaListElement>(v: Seq<T::V>) -> Seq<char>
    decreases v.len(),
{
    if v.len() == 0 {
        Seq::empty()
    } else {
        list_text::<T>(v.drop_last()) + T::spec_text(v.last()) + "\n"@
    }
}

/// A section stored as a list of records, one per line.
#[derive(Debug)]
pub struct CommaListOf<T>(pub Vec<T>);

impl<T: View> View for CommaListOf<T> {
    type V = Seq<T::V>;

    open spec fn view(&self) -> Seq<T::V> {
        Seq::new(self.0@.len(), |i: int| self.0@[i]@)
    }
}

impl<T: CommaListElement> CommaListOf<T> {
    /// An empty list.
    pub fn new() -> (r: CommaListOf<T>)
        ensures
            r@ == Seq::<T::V>::empty(),
    {
        CommaListOf(Vec::new())
    }

    /// The list that holds `v`.
    pub fn from_vec(v: Vec<T>) -> (r: CommaListOf<T>)
        ensures
            r.0@ == v@,
    {
        CommaListOf(v)
    }

    /// Number of records.
    pub fn len(&self) -> (n: usize)
        ensures
            n == self@.len(),
    {
        self.0.len()
    }

    /// The record at `i`, if there is one.
    pub fn get(&self, i: usize) -> (r: Option<&T>)
        ensures
            i < self@.len() ==> (r matches Some(x) && x@ == self@[i as int]),
            i >= self@.len() ==> r is None,
    {
        if i < self.0.len() {
            Some(&self.0[i])
        } else {
            None
        }
    }

    /// Appends a record.
    pub fn push(&mut self, x: T)
        ensures
            final(self)@ == old(self)@.push(x@),
    {
        self.0.push(x);
        proof {
            assert(self@ =~= old(self)@.push(x@));
        }
    }

    /// Parses the text of a list section.
    pub fn parse_chars(s: &[char]) -> (r: Result<CommaListOf<T>, BeatmapParseError>)
        ensures
            result_view(r) == parse_lines::<T>(lines(s@)),
    {
        let ls = lines_of(s);
        let ghost lv = views(ls@);
        let mut out: CommaListOf<T> = CommaListOf::new();
        let mut i: usize = 0;
        proof {
            assert(lv.subrange(0, 0) =~= Seq::<Seq<char>>::empty());
        }
        while i < ls.len()
            invariant
                i <= ls@.len(),
                lv == views(ls@),
                lv == lines(s@),
                parse_lines::<T>(lv.subrange(0, i as int)) == Ok::<Seq<T::V>, ParseFault>(out@),
            decreases ls.len() - i,
        {
            proof {
                assert(lv.subrange(0, i + 1).drop_last() =~= lv.subrange(0, i as int));
                assert(lv.subrange(0, i + 1).last() == ls@[i as int]@);
            }
            match T::parse_chars(&ls[i]) {
                Ok(x) => {
                    out.push(x);
                },
                Err(e) => {
                    match e {
                        BeatmapParseError::CommentaryEntry => {},
                        BeatmapParseError::StoryboardEntry => {},
                        _ => {
                            proof {
                                assert(!skippable(e@));
                                assert(parse_lines::<T>(lv.subrange(0, i + 1)) == Err::<
                                    Seq<T::V>,
                                    ParseFault,
                                >(e@));
                                lemma_parse_lines_err::<T>(lv, i + 1);
                            }
                            return Err(e);
                        },
                    }
                },
            }
            i += 1;
        }
        proof {
            assert(lv.subrange(0, ls@.len() as int) =~= lv);
        }
        Ok(out)
    }

    /// Parses the text of a list section.
    pub fn parse(s: &str) -> (r: Result<CommaListOf<T>, BeatmapParseError>)
        ensures
            result_view(r) == parse_lines::<T>(lines(s@)),
    {
        let c = chars_of(s);
        CommaListOf::parse_chars(&c)
    }

    /// Appends one line per record to `buf`.
    pub fn write_to(&self, buf: &mut String)
        ensures
            final(buf)@ == old(buf)@ + list_text::<T>(self@),
    {
        let ghost start = buf@;
        let mut i: usize = 0;
        proof {
            assert(self@.subrange(0, 0) =~= Seq::<T::V>::empty());
        }
        while i < self.0.len()
            invariant
                i <= self@.len(),
                buf@ == start + list_text::<T>(self@.subrange(0, i as int)),
            decreases self.0.len() - i,
        {
            self.0[i].write_to(buf);
            buf.append("\n");
            proof {
                assert(self@.subrange(0, i + 1).drop_last() =~= self@.subrange(0, i as int));
                assert(buf@ =~= start + list_text::<T>(self@.subrange(0, i + 1)));
            }
            i += 1;
        }
        proof {
            assert(self@.subrange(0, self@.len() as int) =~= self@);
        }
    }

    /// One line per record.
    pub fn serialize(&self) -> (r: String)
        ensures
            r@ == list_text::<T>(self@),
    {
        let mut buf = String::new();
        self.write_to(&mut buf);
        buf
    }

    /// One line per record.
    pub fn to_string(&self) -> (r: String)
        ensures
            r@ == list_text::<T>(self@),
    {
        self.serialize()
    }
}

proof fn lemma_no_line_with(ls: Seq<Seq<char>>, name: Seq<char>, k: int)
    requires
        0 <= k,
        forall|i: int| 0 <= i < ls.len() ==> find_text(#[trigger] ls[i], name) is None,
    ensures
        line_with(ls, name, k) is None,
    decreases ls.len() - k,
{
    if k < ls.len() {
        lemma_no_line_with(ls, name, k + 1);
    }
}

proof fn lemma_first_line_with(ls: Seq<Seq<char>>, name: Seq<char>, k: int, i: int)
    requires
        0 <= k <= i < ls.len(),
        find_text(ls[i], name) is Some,
        forall|j: int| 0 <= j < i ==> find_text(#[trigger] ls[j], name) is None,
    ensures
        line_with(ls, name, k) == Some(i),
    decreases i - k,
{
    if k < i {
        lemma_first_line_with(ls, name, k + 1, i);
    }
}

/// Default suppression: a field whose value is its type's default writes no
/// line at all, and a field that no line names reads as its default.
pub proof fn law_default_suppression<T>(
    ls: Seq<Seq<char>>,
    name: Seq<char>,
    value: Seq<char>,
    spaced: bool,
    default: T,
    read: spec_fn(Seq<char>) -> Option<T>,
)
    requires
        forall|i: int| 0 <= i < ls.len() ==> find_text(#[trigger] ls[i], name) is None,
    ensures
        field_text(name, value, true, spaced) == Seq::<char>::empty(),
        field_as(ls, name, default, read) == Ok::<T, ParseFault>(default),
{
    lemma_no_line_with(ls, name, 0);
}

/// A field whose first line holds a value that does not read as the field's
/// type fails with a format error that names exactly that field.
pub proof fn law_malformed_value_names_field<T>(
    ls: Seq<Seq<char>>,
    name: Seq<char>,
    i: int,
    default: T,
    read: spec_fn(Seq<char>) -> Option<T>,
)
    requires
        0 <= i < ls.len(),
        find_text(ls[i], name) is Some,
        forall|j: int| 0 <= j < i ==> find_text(#[trigger] ls[j], name) is None,
        split_once(ls[i], ':') matches Some((_, v)) && read(trim(v)) is None,
    ensures
        field_as(ls, name, default, read) == Err::<T, ParseFault>(ParseFault::InvalidFormat(name)),
{
    lemma_first_line_with(ls, name, 0, i);
}

/// List skip semantics: a list of one skipped line (commentary or storyboard)
/// and one record parses to exactly that record, whichever comes first.
pub proof fn law_list_skips_one_line<T: CommaListElement>(skipped: Seq<char>, data: Seq<char>, x: T::V)
    requires
        T::spec_parse(skipped) matches Err(e) && skippable(e),
        T::spec_parse(data) == Ok::<T::V, ParseFault>(x),
    ensures
        parse_lines::<T>(seq![skipped, data]) == Ok::<Seq<T::V>, ParseFault>(seq![x]),
        parse_lines::<T>(seq![data, skipped]) == Ok::<Seq<T::V>, ParseFault>(seq![x]),
{
    let a = seq![skipped, data];
    let b = seq![data, skipped];
    let e0 = Seq::<Seq<char>>::empty();
    assert(parse_lines::<T>(e0) == Ok::<Seq<T::V>, ParseFault>(Seq::empty()));
    assert(seq![skipped].drop_last() =~= e0);
    assert(seq![data].drop_last() =~= e0);
    assert(parse_lines::<T>(seq![skipped]) == Ok::<Seq<T::V>, ParseFault>(Seq::empty()));
    assert(Seq::<T::V>::empty().push(x) =~= seq![x]);
    assert(parse_lines::<T>(seq![data]) == Ok::<Seq<T::V>, ParseFault>(seq![x]));
    assert(a.drop_last() =~= seq![skipped]);
    assert(b.drop_last() =~= seq![data]);
    assert(a.last() == data);
    assert(b.last() == skipped);
}

/// Lists keep order: appending a line that parses to `x` appends `x` to the
/// records, and appending a skipped line leaves them as they are.
pub proof fn law_list_order<T: CommaListElement>(ls: Seq<Seq<char>>, line: Seq<char>)
    requires
        parse_lines::<T>(ls) is Ok,
    ensures
        T::spec_parse(line) matches Ok(x) ==> parse_lines::<T>(ls.push(line)) == Ok::<
            Seq<T::V>,
            ParseFault,
        >(parse_lines::<T>(ls)->Ok_0.push(x)),
        T::spec_parse(line) matches Err(e) && skippable(e) ==> parse_lines::<T>(ls.push(line))
            == parse_lines::<T>(ls),
{
    assert(ls.push(line).drop_last() =~= ls);
}

/// The line of each record of `v`.
pub open spec fn record_lines<T: CommaListElement>(v: Seq<T::V>) -> Seq<Seq<char>> {
    Seq::new(v.len(), |i: int| T::spec_text(v[i]))
}

proof fn lemma_list_text_joined<T: CommaListElement>(v: Seq<T::V>)
    requires
        v.len() >= 1,
    ensures
        list_text::<T>(v) == join(record_lines::<T>(v), seq!['\n']) + seq!['\n'],
    decreases v.len(),
{
    reveal_strlit("\n");
    let p = record_lines::<T>(v);
    if v.len() == 1 {
        assert(v.drop_last() =~= Seq::<T::V>::empty());
        assert(list_text::<T>(v.drop_last()) == Seq::<char>::empty());
        assert("\n"@ =~= seq!['\n']);
        assert(list_text::<T>(v) =~= T::spec_text(v[0]) + seq!['\n']);
    } else {
        lemma_list_text_joined::<T>(v.drop_last());
        assert(record_lines::<T>(v.drop_last()) =~= p.drop_last());
        assert(list_text::<T>(v) =~= join(p, seq!['\n']) + seq!['\n']);
    }
}

proof fn lemma_parse_record_lines<T: CommaListElement>(v: Seq<T::V>)
    requires
        forall|i: int|
            0 <= i < v.len() ==> T::spec_parse(T::spec_text(#[trigger] v[i])) == Ok::<
                T::V,
                ParseFault,
            >(v[i]),
    ensures
        parse_lines::<T>(record_lines::<T>(v)) == Ok::<Seq<T::V>, ParseFault>(v),
    decreases v.len(),
{
    let p = record_lines::<T>(v);
    if v.len() == 0 {
        assert(v =~= Seq::<T::V>::empty());
    } else {
        lemma_parse_record_lines::<T>(v.drop_last());
        assert(p.drop_last() =~= record_lines::<T>(v.drop_last()));
        assert(p.last() == T::spec_text(v.last()));
        assert(v.drop_last().push(v.last()) =~= v);
    }
}

/// A list reads back from its canonical text, when each record reads back
/// from its own line and that line has the shape of a line (not empty, no
/// newline, no white space at either end).
pub proof fn law_list_round_trip<T: CommaListElement>(v: Seq<T::V>)
    requires
        forall|i: int|
            0 <= i < v.len() ==> T::spec_parse(T::spec_text(#[trigger] v[i])) == Ok::<
                T::V,
                ParseFault,
            >(v[i]),
        forall|i: int| 0 <= i < v.len() ==> line_shaped(T::spec_text(#[trigger] v[i])),
    ensures
        parse_lines::<T>(lines(list_text::<T>(v))) == Ok::<Seq<T::V>, ParseFault>(v),
{
    lemma_parse_record_lines::<T>(v);
    if v.len() == 0 {
        assert(list_text::<T>(v) == Seq::<char>::empty());
        let e = Seq::<char>::empty();
        assert(skip_front(e, None, 0) == 0);
        assert(trim(e) =~= e);
        assert(trim_all(split(e, '\n')) =~= seq![e]);
        assert(seq![e].drop_last() =~= Seq::<Seq<char>>::empty());
        assert(keep_nonempty(Seq::<Seq<char>>::empty()) =~= Seq::<Seq<char>>::empty());
        assert(keep_nonempty(seq![e]) == keep_nonempty(Seq::<Seq<char>>::empty()));
        assert(lines(e) =~= Seq::<Seq<char>>::empty());
        assert(record_lines::<T>(v) =~= Seq::<Seq<char>>::empty());
    } else {
        lemma_list_text_joined::<T>(v);
        let p = record_lines::<T>(v);
        assert forall|i: int| 0 <= i < p.len() implies line_shaped(#[trigger] p[i]) by {
            assert(p[i] == T::spec_text(v[i]));
        }
        lemma_lines_of_joined(p);
    }
}

} // verus!

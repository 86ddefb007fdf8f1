//! The colours section: combo colours and slider colours.
use vstd::prelude::*;
use crate::error::{invalid, result_view, BeatmapParseError, ParseFault};
use crate::number::{
    is_digit, law_integer_round_trips, lemma_digits_plain, lemma_nat_text, nat_text, parse_u8,
    push_u64, u8_of,
};
use crate::text::{
    is_space, join, keep_nonempty, lemma_lines_of_joined, line_shaped, skip_front, lemma_split_joined, lemma_split_without, lemma_trim_padded, lemma_trim_unchanged,
    chars_of, copy_range, fields_of, is_text, lines, lines_of, piece, piece_at, split,
    starts_with, starts_with_chars, trim, trim_all, views,
};

verus! {

/// What a colour is for: the combo colour with a number, or a slider colour.
#[derive(Clone, Copy, Debug, PartialEq, Eq, Structural)]
pub enum ColourType {
    Combo(u8),
    SliderTrackOverride,
    SliderBorder,
}

impl View for ColourType {
    type V = ColourType;

    open spec fn view(&self) -> ColourType {
        *self
    }
}

impl ColourType {
    /// The colour type that `s` names: `SliderTrackOverride`, `SliderBorder`,
    /// or `Combo` followed by a `u8`.
    pub open spec fn spec_parse(s: Seq<char>) -> Option<ColourType> {
        if s == "SliderTrackOverride"@ {
            Some(ColourType::SliderTrackOverride)
        } else if s == "SliderBorder"@ {
            Some(ColourType::SliderBorder)
        } else if starts_with(s, "Combo"@) {
            match u8_of(s.subrange("Combo"@.len() as int, s.len() as int)) {
                Some(n) => Some(ColourType::Combo(n)),
                None => None,
            }
        } else {
            None
        }
    }

    /// The canonical name.
    pub open spec fn spec_text(self) -> Seq<char> {
        match self {
            ColourType::Combo(n) => "Combo"@ + nat_text(n as nat),
            ColourType::SliderTrackOverride => "SliderTrackOverride"@,
            ColourType::SliderBorder => "SliderBorder"@,
        }
    }

    /// Reads a colour type from characters.
    pub fn parse_chars(s: &[char]) -> (r: Option<ColourType>)
        ensures
            r == ColourType::spec_parse(s@),
    {
        if is_text(s, "SliderTrackOverride") {
            return Some(ColourType::SliderTrackOverride);
        }
        if is_text(s, "SliderBorder") {
            return Some(ColourType::SliderBorder);
        }
        let combo = chars_of("Combo");
        if starts_with_chars(s, &combo) {
            let id = copy_range(s, combo.len(), s.len());
            match parse_u8(&id) {
                Some(n) => Some(ColourType::Combo(n)),
                None => None,
            }
        } else {
            None
        }
    }

    /// Reads a colour type from text.
    pub fn from_str(s: &str) -> (r: Option<ColourType>)
        ensures
            r == ColourType::spec_parse(s@),
    {
        let c = chars_of(s);
        ColourType::parse_chars(&c)
    }

    /// Appends the canonical name to `buf`.
    pub fn write_to(&self, buf: &mut String)
        ensures
            final(buf)@ == old(buf)@ + self.spec_text(),
    {
        match self {
            ColourType::Combo(n) => {
                buf.append("Combo");
                push_u64(buf, *n as u64);
                proof {
                    assert(buf@ =~= old(buf)@ + self.spec_text());
                }
            },
            ColourType::SliderTrackOverride => buf.append("SliderTrackOverride"),
            ColourType::SliderBorder => buf.append("SliderBorder"),
        }
    }

    /// The canonical name.
    pub fn to_string(&self) -> (r: String)
        ensures
            r@ == self.spec_text(),
    {
        let mut buf = String::new();
        self.write_to(&mut buf);
        buf
    }
}

impl Default for ColourType {
    fn default() -> (r: ColourType)
        ensures
            r == ColourType::Combo(1),
    {
        ColourType::Combo(1)
    }
}

/// Representation of the red, green, and blue components of the colours.
#[derive(Clone, Copy, Debug, Default, PartialEq, Eq, Structural)]
pub struct Rgb {
    pub red: u8,
    pub green: u8,
    pub blue: u8,
}

impl View for Rgb {
    type V = Rgb;

    open spec fn view(&self) -> Rgb {
        *self
    }
}

impl Rgb {
    /// The colour that `s` spells: three `u8` separated by commas.
    pub open spec fn spec_parse(s: Seq<char>) -> Result<Rgb, ParseFault> {
        let p = trim_all(split(trim(s), ','));
        match piece(p, 0) {
            None => Err(ParseFault::InvalidFormat("red"@)),
            Some(a) => match u8_of(a) {
                None => Err(ParseFault::InvalidFormat("red"@)),
                Some(red) => match piece(p, 1) {
                    None => Err(ParseFault::InvalidFormat("green"@)),
                    Some(b) => match u8_of(b) {
                        None => Err(ParseFault::InvalidFormat("green"@)),
                        Some(green) => match piece(p, 2) {
                            None => Err(ParseFault::InvalidFormat("blue"@)),
                            Some(c) => match u8_of(c) {
                                None => Err(ParseFault::InvalidFormat("blue"@)),
                                Some(blue) => Ok(Rgb { red, green, blue }),
                            },
                        },
                    },
                },
            },
        }
    }

    /// The canonical spelling, `red,green,blue`.
    pub open spec fn spec_text(self) -> Seq<char> {
        nat_text(self.red as nat) + ","@ + nat_text(self.green as nat) + ","@ + nat_text(
            self.blue as nat,
        )
    }

    /// Reads a colour from characters.
    pub fn parse_chars(s: &[char]) -> (r: Result<Rgb, BeatmapParseError>)
        ensures
            result_view(r) == Rgb::spec_parse(s@),
    {
        let p = fields_of(s, ',');
        let red = match piece_at(&p, 0) {
            None => {
                return Err(invalid("red"));
            },
            Some(a) => match parse_u8(a) {
                None => {
                    return Err(invalid("red"));
                },
                Some(v) => v,
            },
        };
        let green = match piece_at(&p, 1) {
            None => {
                return Err(invalid("green"));
            },
            Some(a) => match parse_u8(a) {
                None => {
                    return Err(invalid("green"));
                },
                Some(v) => v,
            },
        };
        let blue = match piece_at(&p, 2) {
            None => {
                return Err(invalid("blue"));
            },
            Some(a) => match parse_u8(a) {
                None => {
                    return Err(invalid("blue"));
                },
                Some(v) => v,
            },
        };
        Ok(Rgb { red, green, blue })
    }

    /// Reads a colour from text.
    pub fn from_str(s: &str) -> (r: Result<Rgb, BeatmapParseError>)
        ensures
            result_view(r) == Rgb::spec_parse(s@),
    {
        let c = chars_of(s);
        Rgb::parse_chars(&c)
    }

    /// Appends the canonical spelling to `buf`.
    pub fn write_to(&self, buf: &mut String)
        ensures
            final(buf)@ == old(buf)@ + self.spec_text(),
    {
        push_u64(buf, self.red as u64);
        buf.append(",");
        push_u64(buf, self.green as u64);
        buf.append(",");
        push_u64(buf, self.blue as u64);
        proof {
            assert(buf@ =~= old(buf)@ + self.spec_text());
        }
    }

    /// The canonical spelling.
    pub fn to_string(&self) -> (r: String)
        ensures
            r@ == self.spec_text(),
    {
        let mut buf = String::new();
        self.write_to(&mut buf);
        buf
    }
}

/// A colour and what it is for.
#[derive(Clone, Copy, Debug, Default, PartialEq, Eq, Structural)]
pub struct Colour {
    pub colour_of: ColourType,
    pub colour: Rgb,
}

impl View for Colour {
    type V = Colour;

    open spec fn view(&self) -> Colour {
        *self
    }
}

impl Colour {
    /// The colour line that `s` spells: `Name : red,green,blue`.
    pub open spec fn spec_parse(s: Seq<char>) -> Result<Colour, ParseFault> {
        let p = trim_all(split(trim(s), ':'));
        match ColourType::spec_parse(p[0]) {
            None => Err(ParseFault::InvalidFormat("colour"@)),
            Some(colour_of) => match piece(p, 1) {
                None => Err(ParseFault::InvalidFormat("colour"@)),
                Some(t) => match Rgb::spec_parse(t) {
                    Err(_) => Err(ParseFault::InvalidFormat("colour"@)),
                    Ok(colour) => Ok(Colour { colour_of, colour }),
                },
            },
        }
    }

    /// The canonical line, `Name : red,green,blue`.
    pub open spec fn spec_text(self) -> Seq<char> {
        self.colour_of.spec_text() + " : "@ + self.colour.spec_text()
    }

    /// Reads a colour line from characters.
    pub fn parse_chars(s: &[char]) -> (r: Result<Colour, BeatmapParseError>)
        ensures
            result_view(r) == Colour::spec_parse(s@),
    {
        let p = fields_of(s, ':');
        proof {
            crate::text::lemma_split_nonempty(trim(s@), ':');
        }
        let colour_of = match ColourType::parse_chars(&p[0]) {
            None => {
                return Err(invalid("colour"));
            },
            Some(t) => t,
        };
        match piece_at(&p, 1) {
            None => Err(invalid("colour")),
            Some(t) => match Rgb::parse_chars(t) {
                Err(_) => Err(invalid("colour")),
                Ok(colour) => Ok(Colour { colour_of, colour }),
            },
        }
    }

    /// Reads a colour line from text.
    pub fn from_str(s: &str) -> (r: Result<Colour, BeatmapParseError>)
        ensures
            result_view(r) == Colour::spec_parse(s@),
    {
        let c = chars_of(s);
        Colour::parse_chars(&c)
    }

    /// Appends the canonical line to `buf`.
    pub fn write_to(&self, buf: &mut String)
        ensures
            final(buf)@ == old(buf)@ + self.spec_text(),
    {
        self.colour_of.write_to(buf);
        buf.append(" : ");
        self.colour.write_to(buf);
        proof {
            assert(buf@ =~= old(buf)@ + self.spec_text());
        }
    }

    /// The canonical line.
    pub fn to_string(&self) -> (r: String)
        ensures
            r@ == self.spec_text(),
    {
        let mut buf = String::new();
        self.write_to(&mut buf);
        buf
    }
}

/// The model of [`Colours`].
pub struct ColoursView {
    pub combos: Seq<Option<Colour>>,
    pub slider_track_override: Option<Colour>,
    pub slider_border: Option<Colour>,
}

/// Combo and skin colours.
#[derive(Debug)]
pub struct Colours {
    /// Additive combo colours
    pub combos: [Option<Colour>; 8],
    /// Additive slider track colour
    pub slider_track_override: Option<Colour>,
    /// Slider border colour
    pub slider_border: Option<Colour>,
}

impl View for Colours {
    type V = ColoursView;

    open spec fn view(&self) -> ColoursView {
        ColoursView {
            combos: self.combos@,
            slider_track_override: self.slider_track_override,
            slider_border: self.slider_border,
        }
    }
}

/// No colour at all.
pub open spec fn no_colours() -> ColoursView {
    ColoursView {
        combos: Seq::new(8, |i: int| None),
        slider_track_override: None,
        slider_border: None,
    }
}

/// `c` with the colour `col` put in its place; combo numbers run from 1 to 8.
pub open spec fn place_colour(c: ColoursView, col: Colour) -> Result<ColoursView, ParseFault> {
    match col.colour_of {
        ColourType::Combo(n) => if 1 <= n <= 8 {
            Ok(ColoursView { combos: c.combos.update(n - 1, Some(col)), ..c })
        } else {
            Err(ParseFault::InvalidFormat("colour"@))
        },
        ColourType::SliderTrackOverride => Ok(ColoursView { slider_track_override: Some(col), ..c }),
        ColourType::SliderBorder => Ok(ColoursView { slider_border: Some(col), ..c }),
    }
}

/// The colours that the lines `ls` set, a later line replacing an earlier one
/// of the same type.
pub open spec fn colours_of(ls: Seq<Seq<char>>) -> Result<ColoursView, ParseFault>
    decreases ls.len(),
{
    if ls.len() == 0 {
        Ok(no_colours())
    } else {
        match colours_of(ls.drop_last()) {
            Err(e) => Err(e),
            Ok(c) => match Colour::spec_parse(ls.last()) {
                Err(e) => Err(e),
                Ok(col) => place_colour(c, col),
            },
        }
    }
}

/// The line of a colour that is set, nothing for one that is not.
pub open spec fn colour_line(c: Option<Colour>) -> Seq<char> {
    match c {
        Some(col) => col.spec_text() + "\n"@,
        None => Seq::empty(),
    }
}

/// The lines of the combo colours that are set, in order.
pub open spec fn combos_text(v: Seq<Option<Colour>>) -> Seq<char>
    decreases v.len(),
{
    if v.len() == 0 {
        Seq::empty()
    } else {
        combos_text(v.drop_last()) + colour_line(v.last())
    }
}

proof fn lemma_colours_err(ls: Seq<Seq<char>>, k: int)
    requires
        0 <= k <= ls.len(),
        colours_of(ls.subrange(0, k)) is Err,
    ensures
        colours_of(ls) == colours_of(ls.subrange(0, k)),
    decreases ls.len(),
{
    if k == ls.len() {
        assert(ls.subrange(0, k) =~= ls);
    } else {
        assert(ls.drop_last().subrange(0, k) =~= ls.subrange(0, k));
        lemma_colours_err(ls.drop_last(), k);
    }
}

fn write_line(buf: &mut String, c: &Option<Colour>)
    ensures
        final(buf)@ == old(buf)@ + colour_line(*c),
{
    match c {
        Some(col) => {
            col.write_to(buf);
            buf.append("\n");
        },
        None => {},
    }
}

impl Colours {
    /// The colours section that `s` spells, one colour per non-empty line.
    pub open spec fn spec_parse(s: Seq<char>) -> Result<ColoursView, ParseFault> {
        colours_of(lines(s))
    }

    /// The canonical section: the combo colours in order, then the slider
    /// track colour, then the slider border colour, one line each.
    pub open spec fn spec_text(v: ColoursView) -> Seq<char> {
        combos_text(v.combos) + colour_line(v.slider_track_override) + colour_line(v.slider_border)
    }

    /// No colour at all.
    pub fn new() -> (r: Colours)
        ensures
            r@ == no_colours(),
    {
        let r = Colours {
            combos: [None, None, None, None, None, None, None, None],
            slider_track_override: None,
            slider_border: None,
        };
        proof {
            assert(r@.combos =~= no_colours().combos);
        }
        r
    }

    /// Reads a colours section from characters.
    pub fn parse_chars(s: &[char]) -> (r: Result<Colours, BeatmapParseError>)
        ensures
            result_view(r) == Colours::spec_parse(s@),
    {
        let ls = lines_of(s);
        let ghost lv = views(ls@);
        let mut out = Colours::new();
        let mut i: usize = 0;
        proof {
            assert(lv.subrange(0, 0) =~= Seq::<Seq<char>>::empty());
        }
        while i < ls.len()
            invariant
                i <= ls@.len(),
                lv == views(ls@),
                lv == lines(s@),
                colours_of(lv.subrange(0, i as int)) == Ok::<ColoursView, ParseFault>(out@),
            decreases ls.len() - i,
        {
            proof {
                assert(lv.subrange(0, i + 1).drop_last() =~= lv.subrange(0, i as int));
                assert(lv.subrange(0, i + 1).last() == ls@[i as int]@);
            }
            let col = match Colour::parse_chars(&ls[i]) {
                Err(e) => {
                    proof {
                        lemma_colours_err(lv, i + 1);
                    }
                    return Err(e);
                },
                Ok(c) => c,
            };
            match col.colour_of {
                ColourType::Combo(n) => {
                    if 1 <= n && n <= 8 {
                        out.combos[(n - 1) as usize] = Some(col);
                    } else {
                        proof {
                            lemma_colours_err(lv, i + 1);
                        }
                        return Err(invalid("colour"));
                    }
                },
                ColourType::SliderTrackOverride => {
                    out.slider_track_override = Some(col);
                },
                ColourType::SliderBorder => {
                    out.slider_border = Some(col);
                },
            }
            proof {
                assert(colours_of(lv.subrange(0, i + 1)) == Ok::<ColoursView, ParseFault>(out@));
            }
            i += 1;
        }
        proof {
            assert(lv.subrange(0, ls@.len() as int) =~= lv);
        }
        Ok(out)
    }

    /// Reads a colours section from text.
    pub fn parse(s: &str) -> (r: Result<Colours, BeatmapParseError>)
        ensures
            result_view(r) == Colours::spec_parse(s@),
    {
        let c = chars_of(s);
        Colours::parse_chars(&c)
    }

    /// Appends the canonical section to `buf`.
    pub fn write_to(&self, buf: &mut String)
        ensures
            final(buf)@ == old(buf)@ + Colours::spec_text(self@),
    {
        let ghost start = buf@;
        let mut i: usize = 0;
        proof {
            assert(self.combos@.subrange(0, 0) =~= Seq::<Option<Colour>>::empty());
        }
        while i < 8
            invariant
                i <= 8,
                self.combos@.len() == 8,
                buf@ == start + combos_text(self.combos@.subrange(0, i as int)),
            decreases 8 - i,
        {
            write_line(buf, &self.combos[i]);
            proof {
                let v = self.combos@.subrange(0, i + 1);
                assert(v.drop_last() =~= self.combos@.subrange(0, i as int));
                assert(buf@ =~= start + combos_text(v));
            }
            i += 1;
        }
        proof {
            assert(self.combos@.subrange(0, 8) =~= self.combos@);
        }
        write_line(buf, &self.slider_track_override);
        write_line(buf, &self.slider_border);
        proof {
            assert(buf@ =~= start + Colours::spec_text(self@));
        }
    }

    /// The canonical section.
    pub fn serialize(&self) -> (r: String)
        ensures
            r@ == Colours::spec_text(self@),
    {
        let mut buf = String::new();
        self.write_to(&mut buf);
        buf
    }

    /// The canonical section.
    pub fn to_string(&self) -> (r: String)
        ensures
            r@ == Colours::spec_text(self@),
    {
        self.serialize()
    }
}

impl Default for Colours {
    fn default() -> (r: Colours)
        ensures
            r@ == no_colours(),
    {
        Colours::new()
    }
}

/// An RGB colour reads back from its canonical spelling.
pub proof fn law_rgb_round_trip(c: Rgb)
    ensures
        Rgb::spec_parse(c.spec_text()) == Ok::<Rgb, ParseFault>(c),
{
    let t1 = nat_text(c.red as nat);
    let t2 = nat_text(c.green as nat);
    let t3 = nat_text(c.blue as nat);
    lemma_nat_text(c.red as nat);
    lemma_nat_text(c.green as nat);
    lemma_nat_text(c.blue as nat);
    lemma_digits_plain(t1);
    lemma_digits_plain(t2);
    lemma_digits_plain(t3);
    reveal_strlit(",");
    let text = c.spec_text();
    let front = t1 + seq![','] + t2;
    assert(text =~= front + seq![','] + t3);
    lemma_split_without(t1, ',');
    lemma_split_without(t2, ',');
    lemma_split_without(t3, ',');
    lemma_split_joined(t1, t2, ',');
    lemma_split_joined(front, t3, ',');
    assert(split(text, ',') =~= seq![t1, t2, t3]);
    assert(text[0] == t1[0]);
    assert(text.last() == t3.last());
    lemma_trim_unchanged(text);
    lemma_trim_unchanged(t1);
    lemma_trim_unchanged(t2);
    lemma_trim_unchanged(t3);
    assert(trim_all(seq![t1, t2, t3]) =~= seq![t1, t2, t3]);
    law_integer_round_trips(c.red, 0, 0);
    law_integer_round_trips(c.green, 0, 0);
    law_integer_round_trips(c.blue, 0, 0);
}

proof fn lemma_colour_type_text(t: ColourType)
    ensures
        ColourType::spec_parse(t.spec_text()) == Some(t),
        t.spec_text().len() > 0,
        !is_space(t.spec_text()[0]),
        !is_space(t.spec_text().last()),
        forall|i: int|
            0 <= i < t.spec_text().len() ==> #[trigger] t.spec_text()[i] != ':' && t.spec_text()[i]
                != '\n',
{
    reveal_strlit("Combo");
    reveal_strlit("SliderTrackOverride");
    reveal_strlit("SliderBorder");
    assert(('C' as u32) == 67 && ('S' as u32) == 83 && (':' as u32) == 58 && ('\n' as u32) == 10);
    assert("SliderBorder"@.len() == 12 && "SliderTrackOverride"@.len() == 19);
    match t {
        ColourType::Combo(n) => {
            let d = nat_text(n as nat);
            let text = "Combo"@ + d;
            lemma_nat_text(n as nat);
            lemma_digits_plain(d);
            law_integer_round_trips(n, 0, 0);
            assert(text[0] == 'C');
            assert(text.subrange(0, 5) =~= "Combo"@);
            assert(text.subrange(5, text.len() as int) =~= d);
            assert(text.last() == d.last());
            assert(is_digit(d[d.len() - 1]));
            assert forall|i: int| 0 <= i < text.len() implies #[trigger] text[i] != ':' && text[i]
                != '\n' by {
                if i >= 5 {
                    assert(text[i] == d[i - 5]);
                }
            }
        },
        _ => {},
    }
}

/// A colour line reads back from its canonical spelling, and can stand as a
/// line of its section.
pub proof fn law_colour_round_trip(c: Colour)
    ensures
        Colour::spec_parse(c.spec_text()) == Ok::<Colour, ParseFault>(c),
        line_shaped(c.spec_text()),
{
    let ct = c.colour_of.spec_text();
    let rgb = c.colour.spec_text();
    lemma_colour_type_text(c.colour_of);
    law_rgb_round_trip(c.colour);
    let t1 = nat_text(c.colour.red as nat);
    let t3 = nat_text(c.colour.blue as nat);
    lemma_nat_text(c.colour.red as nat);
    lemma_nat_text(c.colour.green as nat);
    lemma_nat_text(c.colour.blue as nat);
    lemma_digits_plain(t1);
    lemma_digits_plain(nat_text(c.colour.green as nat));
    lemma_digits_plain(t3);
    reveal_strlit(",");
    reveal_strlit(" : ");
    assert(rgb =~= t1 + seq![','] + nat_text(c.colour.green as nat) + seq![','] + t3);
    assert(rgb[0] == t1[0]);
    assert(rgb.last() == t3.last());
    assert forall|i: int| 0 <= i < rgb.len() implies #[trigger] rgb[i] != ':' && rgb[i] != '\n' by {
        assert((',' as u32) == 44 && (':' as u32) == 58 && ('\n' as u32) == 10);
        if i < t1.len() {
            assert(rgb[i] == t1[i]);
        } else if i > t1.len() && i < t1.len() + 1 + nat_text(c.colour.green as nat).len() {
            assert(rgb[i] == nat_text(c.colour.green as nat)[i - t1.len() - 1]);
        } else if i > t1.len() + 1 + nat_text(c.colour.green as nat).len() {
            assert(rgb[i] == t3[i - t1.len() - 2 - nat_text(c.colour.green as nat).len()]);
        }
    }
    let a = ct + seq![' '];
    let b = seq![' '] + rgb;
    let text = c.spec_text();
    assert(text =~= a + seq![':'] + b);
    assert((' ' as u32) == 32 && (':' as u32) == 58);
    assert forall|i: int| 0 <= i < a.len() implies a[i] != ':' by {
        if i < ct.len() {
            assert(a[i] == ct[i]);
        }
    }
    assert forall|i: int| 0 <= i < b.len() implies b[i] != ':' by {
        if i > 0 {
            assert(b[i] == rgb[i - 1]);
        }
    }
    lemma_split_without(a, ':');
    lemma_split_without(b, ':');
    lemma_split_joined(a, b, ':');
    assert(split(text, ':') =~= seq![a, b]);
    assert(text[0] == ct[0]);
    assert(text.last() == rgb.last());
    lemma_trim_unchanged(text);
    lemma_trim_padded(ct);
    lemma_trim_padded(rgb);
    assert(trim_all(seq![a, b]) =~= seq![ct, rgb]);
    assert(('\n' as u32) == 10);
    assert forall|i: int| 0 <= i < text.len() implies text[i] != '\n' by {
        if i < ct.len() {
            assert(text[i] == ct[i]);
        } else if i > ct.len() + 2 {
            assert(text[i] == rgb[i - ct.len() - 3]);
        }
    }
    assert(is_digit(t3[t3.len() - 1]));
}

/// The colours of `s` that are set, in order.
pub open spec fn set_in(s: Seq<Option<Colour>>) -> Seq<Colour>
    decreases s.len(),
{
    if s.len() == 0 {
        Seq::empty()
    } else {
        match s.last() {
            Some(c) => set_in(s.drop_last()).push(c),
            None => set_in(s.drop_last()),
        }
    }
}

/// The colour of `o`, if it is set.
pub open spec fn set_one(o: Option<Colour>) -> Seq<Colour> {
    match o {
        Some(c) => seq![c],
        None => Seq::empty(),
    }
}

/// The colours of `v` that are set, in the order the section writes them.
pub open spec fn set_colours(v: ColoursView) -> Seq<Colour> {
    set_in(v.combos) + set_one(v.slider_track_override) + set_one(v.slider_border)
}

/// The lines of the colours `p`, each ending in a newline.
pub open spec fn colour_lines(p: Seq<Colour>) -> Seq<char>
    decreases p.len(),
{
    if p.len() == 0 {
        Seq::empty()
    } else {
        colour_lines(p.drop_last()) + p.last().spec_text() + "\n"@
    }
}

/// Each combo colour sits in the slot of its number, and each slider colour
/// in its own field.
pub open spec fn colours_wf(v: ColoursView) -> bool {
    &&& v.combos.len() == 8
    &&& forall|i: int|
        0 <= i < 8 ==> (#[trigger] v.combos[i] matches Some(c) ==> c.colour_of == ColourType::Combo(
            (i + 1) as u8,
        ))
    &&& v.slider_track_override matches Some(c) ==> c.colour_of == ColourType::SliderTrackOverride
    &&& v.slider_border matches Some(c) ==> c.colour_of == ColourType::SliderBorder
}

/// Placing the colours `p` one after the other, from no colour at all.
pub open spec fn place_all(p: Seq<Colour>) -> Result<ColoursView, ParseFault>
    decreases p.len(),
{
    if p.len() == 0 {
        Ok(no_colours())
    } else {
        match place_all(p.drop_last()) {
            Err(e) => Err(e),
            Ok(c) => place_colour(c, p.last()),
        }
    }
}

proof fn lemma_colour_lines_concat(a: Seq<Colour>, b: Seq<Colour>)
    ensures
        colour_lines(a + b) == colour_lines(a) + colour_lines(b),
    decreases b.len(),
{
    if b.len() == 0 {
        assert(a + b =~= a);
        assert(colour_lines(a) + colour_lines(b) =~= colour_lines(a));
    } else {
        lemma_colour_lines_concat(a, b.drop_last());
        assert((a + b).drop_last() =~= a + b.drop_last());
        assert((a + b).last() == b.last());
        assert(colour_lines(a + b) =~= colour_lines(a) + colour_lines(b));
    }
}

proof fn lemma_combos_text(s: Seq<Option<Colour>>)
    ensures
        combos_text(s) == colour_lines(set_in(s)),
    decreases s.len(),
{
    if s.len() > 0 {
        lemma_combos_text(s.drop_last());
        match s.last() {
            Some(c) => {
                assert(set_in(s).drop_last() =~= set_in(s.drop_last()));
                assert(combos_text(s) =~= colour_lines(set_in(s)));
            },
            None => {},
        }
    }
}

proof fn lemma_set_one_text(o: Option<Colour>)
    ensures
        colour_line(o) == colour_lines(set_one(o)),
{
    match o {
        Some(c) => {
            assert(seq![c].drop_last() =~= Seq::<Colour>::empty());
            assert(colour_lines(Seq::<Colour>::empty()) == Seq::<char>::empty());
            assert(seq![c].last() == c);
            assert(colour_lines(seq![c]) =~= colour_line(o));
        },
        None => {},
    }
}

proof fn lemma_colours_text(v: ColoursView)
    ensures
        Colours::spec_text(v) == colour_lines(set_colours(v)),
{
    lemma_combos_text(v.combos);
    lemma_set_one_text(v.slider_track_override);
    lemma_set_one_text(v.slider_border);
    lemma_colour_lines_concat(set_in(v.combos), set_one(v.slider_track_override));
    lemma_colour_lines_concat(
        set_in(v.combos) + set_one(v.slider_track_override),
        set_one(v.slider_border),
    );
}

/// The line of each colour of `p`.
pub open spec fn colour_texts(p: Seq<Colour>) -> Seq<Seq<char>> {
    Seq::new(p.len(), |i: int| p[i].spec_text())
}

proof fn lemma_colour_lines_joined(p: Seq<Colour>)
    requires
        p.len() >= 1,
    ensures
        colour_lines(p) == join(colour_texts(p), seq!['\n']) + seq!['\n'],
    decreases p.len(),
{
    reveal_strlit("\n");
    assert("\n"@ =~= seq!['\n']);
    if p.len() == 1 {
        assert(p.drop_last() =~= Seq::<Colour>::empty());
        assert(colour_lines(Seq::<Colour>::empty()) == Seq::<char>::empty());
        assert(p.last() == p[0]);
        assert(colour_lines(p) =~= p[0].spec_text() + seq!['\n']);
    } else {
        lemma_colour_lines_joined(p.drop_last());
        assert(colour_texts(p.drop_last()) =~= colour_texts(p).drop_last());
        assert(colour_lines(p) =~= join(colour_texts(p), seq!['\n']) + seq!['\n']);
    }
}

proof fn lemma_read_colour_lines(p: Seq<Colour>)
    ensures
        colours_of(colour_texts(p)) == place_all(p),
    decreases p.len(),
{
    if p.len() > 0 {
        lemma_read_colour_lines(p.drop_last());
        assert(colour_texts(p).drop_last() =~= colour_texts(p.drop_last()));
        law_colour_round_trip(p.last());
    }
}

/// The first `i` combo slots of `v`, and nothing else set.
pub open spec fn first_combos(v: ColoursView, i: int) -> ColoursView {
    ColoursView {
        combos: Seq::new(8, |j: int| if j < i { v.combos[j] } else { None }),
        slider_track_override: None,
        slider_border: None,
    }
}

proof fn lemma_place_combos(v: ColoursView, i: int)
    requires
        colours_wf(v),
        0 <= i <= 8,
    ensures
        place_all(set_in(v.combos.subrange(0, i))) == Ok::<ColoursView, ParseFault>(
            first_combos(v, i),
        ),
    decreases i,
{
    if i == 0 {
        assert(v.combos.subrange(0, 0) =~= Seq::<Option<Colour>>::empty());
        assert(first_combos(v, 0).combos =~= no_colours().combos);
    } else {
        lemma_place_combos(v, i - 1);
        let s = v.combos.subrange(0, i);
        assert(s.drop_last() =~= v.combos.subrange(0, i - 1));
        assert(s.last() == v.combos[i - 1]);
        match v.combos[i - 1] {
            Some(c) => {
                assert(set_in(s).drop_last() =~= set_in(v.combos.subrange(0, i - 1)));
                assert(c.colour_of == ColourType::Combo(i as u8));
                assert(first_combos(v, i - 1).combos.update(i - 1, Some(c)) =~= first_combos(
                    v,
                    i,
                ).combos);
            },
            None => {
                assert(first_combos(v, i - 1).combos =~= first_combos(v, i).combos);
            },
        }
    }
}

proof fn lemma_place_one(p: Seq<Colour>, o: Option<Colour>)
    ensures
        place_all(p + set_one(o)) == match o {
            Some(c) => match place_all(p) {
                Err(e) => Err(e),
                Ok(x) => place_colour(x, c),
            },
            None => place_all(p),
        },
{
    match o {
        Some(c) => {
            assert((p + seq![c]).drop_last() =~= p);
        },
        None => {
            assert(p + Seq::<Colour>::empty() =~= p);
        },
    }
}

/// A colours section in which each colour sits in its own slot reads back
/// from its canonical text.
pub proof fn law_colours_round_trip(v: ColoursView)
    requires
        colours_wf(v),
    ensures
        Colours::spec_parse(Colours::spec_text(v)) == Ok::<ColoursView, ParseFault>(v),
{
    let p = set_colours(v);
    lemma_colours_text(v);
    lemma_read_colour_lines(p);
    lemma_place_combos(v, 8);
    assert(v.combos.subrange(0, 8) =~= v.combos);
    assert(first_combos(v, 8).combos =~= v.combos);
    let q = set_in(v.combos);
    lemma_place_one(q, v.slider_track_override);
    lemma_place_one(q + set_one(v.slider_track_override), v.slider_border);
    if p.len() == 0 {
        let e = Seq::<char>::empty();
        assert(colour_lines(p) == e);
        assert(skip_front(e, None, 0) == 0);
        assert(trim(e) =~= e);
        assert(trim_all(split(e, '\n')) =~= seq![e]);
        assert(seq![e].drop_last() =~= Seq::<Seq<char>>::empty());
        assert(keep_nonempty(Seq::<Seq<char>>::empty()) =~= Seq::<Seq<char>>::empty());
        assert(keep_nonempty(seq![e]) == keep_nonempty(Seq::<Seq<char>>::empty()));
        assert(lines(e) =~= Seq::<Seq<char>>::empty());
        assert(colour_texts(p) =~= Seq::<Seq<char>>::empty());
    } else {
        lemma_colour_lines_joined(p);
        let t = colour_texts(p);
        assert forall|i: int| 0 <= i < t.len() implies line_shaped(#[trigger] t[i]) by {
            law_colour_round_trip(p[i]);
        }
        lemma_lines_of_joined(t);
    }
}

proof fn lemma_read_colours_wf(ls: Seq<Seq<char>>)
    requires
        colours_of(ls) is Ok,
    ensures
        colours_wf(colours_of(ls)->Ok_0),
    decreases ls.len(),
{
    if ls.len() > 0 {
        lemma_read_colours_wf(ls.drop_last());
        let c = colours_of(ls.drop_last())->Ok_0;
        let col = Colour::spec_parse(ls.last())->Ok_0;
        let r = colours_of(ls)->Ok_0;
        match col.colour_of {
            ColourType::Combo(n) => {
                assert forall|i: int| 0 <= i < 8 implies (#[trigger] r.combos[i] matches Some(x)
                    ==> x.colour_of == ColourType::Combo((i + 1) as u8)) by {
                    if i == n - 1 {
                        assert(r.combos[i] == Some(col));
                    } else {
                        assert(r.combos[i] == c.combos[i]);
                    }
                }
            },
            _ => {},
        }
    } else {
        assert(no_colours().combos.len() == 8);
    }
}

/// Parsing a colours section, writing it, and parsing the text again gives
/// the first parse, whatever order, spacing or repetition the first text had.
pub proof fn law_colours_idempotent(s: Seq<char>)
    requires
        Colours::spec_parse(s) is Ok,
    ensures
        Colours::spec_parse(Colours::spec_text(Colours::spec_parse(s)->Ok_0)) == Colours::spec_parse(
            s,
        ),
{
    lemma_read_colours_wf(lines(s));
    law_colours_round_trip(Colours::spec_parse(s)->Ok_0);
}

} // verus!

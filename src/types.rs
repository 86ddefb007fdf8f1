//! Scalar value types shared by several sections.
use vstd::prelude::*;
use crate::error::MapTypeError;
use crate::number::{nat_text, parse_unsigned, unsigned_of};
use crate::text::{chars_of, is_text};

pub mod general;
pub mod timing_points;

verus! {

/// A boolean as the format writes it: `0` or `1`, also read from `true` and `false`.
#[derive(Clone, Copy, Debug, PartialEq, Eq, Structural)]
pub struct OsuBool(pub bool);

/// The boolean that `s` spells, if any.
pub open spec fn bool_of(s: Seq<char>) -> Option<bool> {
    if s == "true"@ || s == "1"@ {
        Some(true)
    } else if s == "false"@ || s == "0"@ {
        Some(false)
    } else {
        None
    }
}

impl View for OsuBool {
    type V = OsuBool;

    open spec fn view(&self) -> OsuBool {
        *self
    }
}

impl OsuBool {
    /// The canonical spelling: `1` or `0`.
    pub open spec fn spec_text(self) -> Seq<char> {
        if self.0 {
            "1"@
        } else {
            "0"@
        }
    }

    /// Reads a boolean from characters.
    pub fn parse_chars(s: &[char]) -> (r: Result<OsuBool, MapTypeError>)
        ensures
            match bool_of(s@) {
                Some(b) => r == Ok::<OsuBool, MapTypeError>(OsuBool(b)),
                None => r == Err::<OsuBool, MapTypeError>(MapTypeError::UnexpectedBoolValue),
            },
    {
        if is_text(s, "true") || is_text(s, "1") {
            Ok(OsuBool(true))
        } else if is_text(s, "false") || is_text(s, "0") {
            Ok(OsuBool(false))
        } else {
            Err(MapTypeError::UnexpectedBoolValue)
        }
    }

    /// Reads a boolean from text.
    pub fn from_str(s: &str) -> (r: Result<OsuBool, MapTypeError>)
        ensures
            match bool_of(s@) {
                Some(b) => r == Ok::<OsuBool, MapTypeError>(OsuBool(b)),
                None => r == Err::<OsuBool, MapTypeError>(MapTypeError::UnexpectedBoolValue),
            },
    {
        let c = chars_of(s);
        OsuBool::parse_chars(&c)
    }

    /// The default, `false`.
    pub fn new() -> (r: OsuBool)
        ensures
            r == OsuBool(false),
    {
        OsuBool(false)
    }

    /// Whether this is the default value.
    pub fn is_default(&self) -> (b: bool)
        ensures
            b == !self.0,
    {
        !self.0
    }

    /// Appends the canonical spelling to `buf`.
    pub fn write_to(&self, buf: &mut String)
        ensures
            final(buf)@ == old(buf)@ + self.spec_text(),
    {
        if self.0 {
            buf.append("1");
        } else {
            buf.append("0");
        }
    }

    /// The canonical spelling.
    pub fn to_string(&self) -> (r: String)
        ensures
            r@ == self.spec_text(),
    {
        let mut buf = String::new();
        self.write_to(&mut buf);
        buf
    }
}

impl Default for OsuBool {
    fn default() -> (r: OsuBool)
        ensures
            r == OsuBool(false),
    {
        OsuBool(false)
    }
}

impl From<bool> for OsuBool {
    fn from(b: bool) -> (r: OsuBool) {
        OsuBool(b)
    }
}

impl vstd::std_specs::convert::FromSpecImpl<bool> for OsuBool {
    open spec fn obeys_from_spec() -> bool {
        true
    }

    open spec fn from_spec(b: bool) -> OsuBool {
        OsuBool(b)
    }
}

impl From<OsuBool> for bool {
    fn from(b: OsuBool) -> (r: bool) {
        b.0
    }
}

impl vstd::std_specs::convert::FromSpecImpl<OsuBool> for bool {
    open spec fn obeys_from_spec() -> bool {
        true
    }

    open spec fn from_spec(b: OsuBool) -> bool {
        b.0
    }
}

/// The sample set of a hit sample or a timing point, written as `0` to `3`.
#[derive(Clone, Copy, Debug, PartialEq, Eq, Structural)]
pub enum SampleSet {
    Default,
    Normal,
    Soft,
    Drum,
}

impl View for SampleSet {
    type V = SampleSet;

    open spec fn view(&self) -> SampleSet {
        *self
    }
}

impl SampleSet {
    /// The number that stands for this sample set.
    pub open spec fn index(self) -> nat {
        match self {
            SampleSet::Default => 0,
            SampleSet::Normal => 1,
            SampleSet::Soft => 2,
            SampleSet::Drum => 3,
        }
    }

    /// The sample set that `n` stands for.
    pub open spec fn of_index(n: nat) -> Option<SampleSet> {
        if n == 0 {
            Some(SampleSet::Default)
        } else if n == 1 {
            Some(SampleSet::Normal)
        } else if n == 2 {
            Some(SampleSet::Soft)
        } else if n == 3 {
            Some(SampleSet::Drum)
        } else {
            None
        }
    }

    /// The sample set that `s` spells: a format error when it is no `u8`, a
    /// value error when it is a `u8` outside `0..=3`.
    pub open spec fn spec_parse(s: Seq<char>) -> Result<SampleSet, MapTypeError> {
        match unsigned_of(s) {
            None => Err(MapTypeError::UnexpectedSampleSetFormat),
            Some(n) => if n > 255 {
                Err(MapTypeError::UnexpectedSampleSetFormat)
            } else {
                match SampleSet::of_index(n) {
                    Some(v) => Ok(v),
                    None => Err(MapTypeError::UnexpectedSampleSetValue { value: n as u8 }),
                }
            },
        }
    }

    /// The canonical spelling.
    pub open spec fn spec_text(self) -> Seq<char> {
        nat_text(self.index())
    }

    /// The sample set that `value` stands for.
    pub fn try_from_u8(value: u8) -> (r: Option<SampleSet>)
        ensures
            r == SampleSet::of_index(value as nat),
    {
        match value {
            0 => Some(SampleSet::Default),
            1 => Some(SampleSet::Normal),
            2 => Some(SampleSet::Soft),
            3 => Some(SampleSet::Drum),
            _ => None,
        }
    }

    /// Reads a sample set from characters.
    pub fn parse_chars(s: &[char]) -> (r: Result<SampleSet, MapTypeError>)
        ensures
            r == SampleSet::spec_parse(s@),
    {
        match parse_unsigned(s, 255) {
            None => Err(MapTypeError::UnexpectedSampleSetFormat),
            Some(n) => match SampleSet::try_from_u8(n as u8) {
                Some(v) => Ok(v),
                None => Err(MapTypeError::UnexpectedSampleSetValue { value: n as u8 }),
            },
        }
    }

    /// Reads a sample set from text.
    pub fn from_str(s: &str) -> (r: Result<SampleSet, MapTypeError>)
        ensures
            r == SampleSet::spec_parse(s@),
    {
        let c = chars_of(s);
        SampleSet::parse_chars(&c)
    }

    /// Whether this is the default, [`SampleSet::Default`].
    pub fn is_default(&self) -> (b: bool)
        ensures
            b == (*self == SampleSet::Default),
    {
        matches!(self, SampleSet::Default)
    }

    /// Appends the canonical spelling to `buf`.
    pub fn write_to(&self, buf: &mut String)
        ensures
            final(buf)@ == old(buf)@ + self.spec_text(),
    {
        let n: u64 = match self {
            SampleSet::Default => 0,
            SampleSet::Normal => 1,
            SampleSet::Soft => 2,
            SampleSet::Drum => 3,
        };
        crate::number::push_u64(buf, n);
    }

    /// The canonical spelling.
    pub fn to_string(&self) -> (r: String)
        ensures
            r@ == self.spec_text(),
    {
        let mut buf = String::new();
        self.write_to(&mut buf);
        buf
    }
}

impl Default for SampleSet {
    fn default() -> (r: SampleSet)
        ensures
            r == SampleSet::Default,
    {
        SampleSet::Default
    }
}

/// A boolean reads back from its canonical spelling.
pub proof fn law_bool_round_trip(b: OsuBool)
    ensures
        bool_of(b.spec_text()) == Some(b.0),
{
    reveal_strlit("0");
    reveal_strlit("1");
    reveal_strlit("true");
    reveal_strlit("false");
    assert("0"@.len() == 1 && "true"@.len() == 4 && "0"@[0] == '0' && "1"@[0] == '1');
    assert("0"@ != "true"@ && "0"@ != "1"@);
}

/// A sample set reads back from its canonical spelling.
pub proof fn law_sample_set_round_trip(v: SampleSet)
    ensures
        SampleSet::spec_parse(v.spec_text()) == Ok::<SampleSet, MapTypeError>(v),
{
    crate::number::law_unsigned_round_trip(v.index());
}

} // verus!

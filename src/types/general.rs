//! The enumerations of the general section.
use vstd::prelude::*;
use crate::error::{general_view, overlay_error, sample_set_error, GeneralError, GeneralFault};
use crate::number::{i32_of, nat_text, parse_i32, push_u64};
use crate::text::{chars_of, is_text};

verus! {

/// The game mode a beatmap is made for, written as `0` to `3`.
#[derive(Clone, Copy, Debug, PartialEq, Eq, Structural)]
pub enum Gamemode {
    STD,
    TAIKO,
    CTB,
    MANIA,
}

impl View for Gamemode {
    type V = Gamemode;

    open spec fn view(&self) -> Gamemode {
        *self
    }
}

impl Gamemode {
    /// The number that stands for this mode.
    pub open spec fn index(self) -> nat {
        match self {
            Gamemode::STD => 0,
            Gamemode::TAIKO => 1,
            Gamemode::CTB => 2,
            Gamemode::MANIA => 3,
        }
    }

    /// The mode that `s` spells: a format error when it is no `i32`, a value
    /// error when it is an `i32` outside `0..=3`.
    pub open spec fn spec_parse(s: Seq<char>) -> Result<Gamemode, GeneralFault> {
        match i32_of(s) {
            None => Err(GeneralFault::UnexpectedGamemodeFormat),
            Some(n) => if n == 0 {
                Ok(Gamemode::STD)
            } else if n == 1 {
                Ok(Gamemode::TAIKO)
            } else if n == 2 {
                Ok(Gamemode::CTB)
            } else if n == 3 {
                Ok(Gamemode::MANIA)
            } else {
                Err(GeneralFault::UnexpectedGamemodeValue(n))
            },
        }
    }

    /// The canonical spelling.
    pub open spec fn spec_text(self) -> Seq<char> {
        nat_text(self.index())
    }

    /// Reads a mode from characters.
    pub fn parse_chars(s: &[char]) -> (r: Result<Gamemode, GeneralError>)
        ensures
            general_view(r) == Gamemode::spec_parse(s@),
    {
        match parse_i32(s) {
            None => Err(GeneralError::UnexpectedGamemodeFormat),
            Some(n) => match n {
                0 => Ok(Gamemode::STD),
                1 => Ok(Gamemode::TAIKO),
                2 => Ok(Gamemode::CTB),
                3 => Ok(Gamemode::MANIA),
                _ => Err(GeneralError::UnexpectedGamemodeValue { value: n }),
            },
        }
    }

    /// Reads a mode from text.
    pub fn from_str(s: &str) -> (r: Result<Gamemode, GeneralError>)
        ensures
            general_view(r) == Gamemode::spec_parse(s@),
    {
        let c = chars_of(s);
        Gamemode::parse_chars(&c)
    }

    /// Whether this is the default, [`Gamemode::STD`].
    pub fn is_default(&self) -> (b: bool)
        ensures
            b == (*self == Gamemode::STD),
    {
        matches!(self, Gamemode::STD)
    }

    /// Appends the canonical spelling to `buf`.
    pub fn write_to(&self, buf: &mut String)
        ensures
            final(buf)@ == old(buf)@ + self.spec_text(),
    {
        let n: u64 = match self {
            Gamemode::STD => 0,
            Gamemode::TAIKO => 1,
            Gamemode::CTB => 2,
            Gamemode::MANIA => 3,
        };
        push_u64(buf, n);
    }

    /// The canonical spelling.
    pub fn to_string(&self) -> (r: String)
        ensures
            r@ == self.spec_text(),
    {
        let mut buf = String::new();
        self.write_to(&mut buf);
        buf
    }
}

impl Default for Gamemode {
    fn default() -> (r: Gamemode)
        ensures
            r == Gamemode::STD,
    {
        Gamemode::STD
    }
}

/// Where hit circle overlays are drawn relative to the numbers.
#[derive(Clone, Copy, Debug, PartialEq, Eq, Structural)]
pub enum OverlayPosition {
    /// use skin setting
    NOCHANGE,
    /// draw overlays under numbers
    BELOW,
    /// draw overlays on top of numbers
    ABOVE,
}

impl View for OverlayPosition {
    type V = OverlayPosition;

    open spec fn view(&self) -> OverlayPosition {
        *self
    }
}

impl OverlayPosition {
    /// The position that `s` spells.
    pub open spec fn spec_parse(s: Seq<char>) -> Result<OverlayPosition, GeneralFault> {
        if s == "NoChange"@ {
            Ok(OverlayPosition::NOCHANGE)
        } else if s == "Below"@ {
            Ok(OverlayPosition::BELOW)
        } else if s == "Above"@ {
            Ok(OverlayPosition::ABOVE)
        } else {
            Err(GeneralFault::UnexpectedOverlayPosValue(s))
        }
    }

    /// The canonical spelling.
    pub open spec fn spec_text(self) -> Seq<char> {
        match self {
            OverlayPosition::NOCHANGE => "NoChange"@,
            OverlayPosition::BELOW => "Below"@,
            OverlayPosition::ABOVE => "Above"@,
        }
    }

    /// Reads a position from characters.
    pub fn parse_chars(s: &[char]) -> (r: Result<OverlayPosition, GeneralError>)
        ensures
            general_view(r) == OverlayPosition::spec_parse(s@),
    {
        if is_text(s, "NoChange") {
            Ok(OverlayPosition::NOCHANGE)
        } else if is_text(s, "Below") {
            Ok(OverlayPosition::BELOW)
        } else if is_text(s, "Above") {
            Ok(OverlayPosition::ABOVE)
        } else {
            Err(overlay_error(s))
        }
    }

    /// Reads a position from text.
    pub fn from_str(s: &str) -> (r: Result<OverlayPosition, GeneralError>)
        ensures
            general_view(r) == OverlayPosition::spec_parse(s@),
    {
        let c = chars_of(s);
        OverlayPosition::parse_chars(&c)
    }

    /// Whether this is the default, [`OverlayPosition::NOCHANGE`].
    pub fn is_default(&self) -> (b: bool)
        ensures
            b == (*self == OverlayPosition::NOCHANGE),
    {
        matches!(self, OverlayPosition::NOCHANGE)
    }

    /// Appends the canonical spelling to `buf`.
    pub fn write_to(&self, buf: &mut String)
        ensures
            final(buf)@ == old(buf)@ + self.spec_text(),
    {
        match self {
            OverlayPosition::NOCHANGE => buf.append("NoChange"),
            OverlayPosition::BELOW => buf.append("Below"),
            OverlayPosition::ABOVE => buf.append("Above"),
        }
    }

    /// The canonical spelling.
    pub fn to_string(&self) -> (r: String)
        ensures
            r@ == self.spec_text(),
    {
        let mut buf = String::new();
        self.write_to(&mut buf);
        buf
    }
}

impl Default for OverlayPosition {
    fn default() -> (r: OverlayPosition)
        ensures
            r == OverlayPosition::NOCHANGE,
    {
        OverlayPosition::NOCHANGE
    }
}

/// The sample set used where timing points do not set one.
#[derive(Clone, Copy, Debug, PartialEq, Eq, Structural)]
pub enum SampleSet {
    NORMAL,
    SOFT,
    DRUM,
}

impl View for SampleSet {
    type V = SampleSet;

    open spec fn view(&self) -> SampleSet {
        *self
    }
}

impl SampleSet {
    /// The sample set that `s` spells.
    pub open spec fn spec_parse(s: Seq<char>) -> Result<SampleSet, GeneralFault> {
        if s == "Normal"@ {
            Ok(SampleSet::NORMAL)
        } else if s == "Soft"@ {
            Ok(SampleSet::SOFT)
        } else if s == "Drum"@ {
            Ok(SampleSet::DRUM)
        } else {
            Err(GeneralFault::UnexpectedSampleSetValue(s))
        }
    }

    /// The canonical spelling.
    pub open spec fn spec_text(self) -> Seq<char> {
        match self {
            SampleSet::NORMAL => "Normal"@,
            SampleSet::SOFT => "Soft"@,
            SampleSet::DRUM => "Drum"@,
        }
    }

    /// Reads a sample set from characters.
    pub fn parse_chars(s: &[char]) -> (r: Result<SampleSet, GeneralError>)
        ensures
            general_view(r) == SampleSet::spec_parse(s@),
    {
        if is_text(s, "Normal") {
            Ok(SampleSet::NORMAL)
        } else if is_text(s, "Soft") {
            Ok(SampleSet::SOFT)
        } else if is_text(s, "Drum") {
            Ok(SampleSet::DRUM)
        } else {
            Err(sample_set_error(s))
        }
    }

    /// Reads a sample set from text.
    pub fn from_str(s: &str) -> (r: Result<SampleSet, GeneralError>)
        ensures
            general_view(r) == SampleSet::spec_parse(s@),
    {
        let c = chars_of(s);
        SampleSet::parse_chars(&c)
    }

    /// Whether this is the default, [`SampleSet::NORMAL`].
    pub fn is_default(&self) -> (b: bool)
        ensures
            b == (*self == SampleSet::NORMAL),
    {
        matches!(self, SampleSet::NORMAL)
    }

    /// Appends the canonical spelling to `buf`.
    pub fn write_to(&self, buf: &mut String)
        ensures
            final(buf)@ == old(buf)@ + self.spec_text(),
    {
        match self {
            SampleSet::NORMAL => buf.append("Normal"),
            SampleSet::SOFT => buf.append("Soft"),
            SampleSet::DRUM => buf.append("Drum"),
        }
    }

    /// The canonical spelling.
    pub fn to_string(&self) -> (r: String)
        ensures
            r@ == self.spec_text(),
    {
        let mut buf = String::new();
        self.write_to(&mut buf);
        buf
    }
}

impl Default for SampleSet {
    fn default() -> (r: SampleSet)
        ensures
            r == SampleSet::NORMAL,
    {
        SampleSet::NORMAL
    }
}

/// Speed of the countdown before the first hit object, written as `0` to `3`.
#[derive(Clone, Copy, Debug, PartialEq, Eq, Structural)]
pub enum Countdown {
    NONE,
    NORMAL,
    HALF,
    DOUBLE,
}

impl View for Countdown {
    type V = Countdown;

    open spec fn view(&self) -> Countdown {
        *self
    }
}

impl Countdown {
    /// The number that stands for this speed.
    pub open spec fn index(self) -> nat {
        match self {
            Countdown::NONE => 0,
            Countdown::NORMAL => 1,
            Countdown::HALF => 2,
            Countdown::DOUBLE => 3,
        }
    }

    /// The speed that `s` spells: a format error when it is no `i32`, a value
    /// error when it is an `i32` outside `0..=3`.
    pub open spec fn spec_parse(s: Seq<char>) -> Result<Countdown, GeneralFault> {
        match i32_of(s) {
            None => Err(GeneralFault::UnexpectedCountdownFormat),
            Some(n) => if n == 0 {
                Ok(Countdown::NONE)
            } else if n == 1 {
                Ok(Countdown::NORMAL)
            } else if n == 2 {
                Ok(Countdown::HALF)
            } else if n == 3 {
                Ok(Countdown::DOUBLE)
            } else {
                Err(GeneralFault::UnexpectedCountdownValue(n))
            },
        }
    }

    /// The canonical spelling.
    pub open spec fn spec_text(self) -> Seq<char> {
        nat_text(self.index())
    }

    /// Reads a speed from characters.
    pub fn parse_chars(s: &[char]) -> (r: Result<Countdown, GeneralError>)
        ensures
            general_view(r) == Countdown::spec_parse(s@),
    {
        match parse_i32(s) {
            None => Err(GeneralError::UnexpectedCountdownFormat),
            Some(n) => match n {
                0 => Ok(Countdown::NONE),
                1 => Ok(Countdown::NORMAL),
                2 => Ok(Countdown::HALF),
                3 => Ok(Countdown::DOUBLE),
                _ => Err(GeneralError::UnexpectedCountdownValue { value: n }),
            },
        }
    }

    /// Reads a speed from text.
    pub fn from_str(s: &str) -> (r: Result<Countdown, GeneralError>)
        ensures
            general_view(r) == Countdown::spec_parse(s@),
    {
        let c = chars_of(s);
        Countdown::parse_chars(&c)
    }

    /// Whether this is the default, [`Countdown::NORMAL`].
    pub fn is_default(&self) -> (b: bool)
        ensures
            b == (*self == Countdown::NORMAL),
    {
        matches!(self, Countdown::NORMAL)
    }

    /// Appends the canonical spelling to `buf`.
    pub fn write_to(&self, buf: &mut String)
        ensures
            final(buf)@ == old(buf)@ + self.spec_text(),
    {
        let n: u64 = match self {
            Countdown::NONE => 0,
            Countdown::NORMAL => 1,
            Countdown::HALF => 2,
            Countdown::DOUBLE => 3,
        };
        push_u64(buf, n);
    }

    /// The canonical spelling.
    pub fn to_string(&self) -> (r: String)
        ensures
            r@ == self.spec_text(),
    {
        let mut buf = String::new();
        self.write_to(&mut buf);
        buf
    }
}

impl Default for Countdown {
    fn default() -> (r: Countdown)
        ensures
            r == Countdown::NORMAL,
    {
        Countdown::NORMAL
    }
}

/// The game mode and the countdown speed read back from their spellings.
pub proof fn law_numbered_round_trips(m: Gamemode, c: Countdown)
    ensures
        Gamemode::spec_parse(m.spec_text()) == Ok::<Gamemode, GeneralFault>(m),
        Countdown::spec_parse(c.spec_text()) == Ok::<Countdown, GeneralFault>(c),
{
    crate::number::law_signed_round_trip(m.index() as int);
    crate::number::law_signed_round_trip(c.index() as int);
}

/// The overlay position and the sample set read back from their spellings.
pub proof fn law_named_round_trips(p: OverlayPosition, s: SampleSet)
    ensures
        OverlayPosition::spec_parse(p.spec_text()) == Ok::<OverlayPosition, GeneralFault>(p),
        SampleSet::spec_parse(s.spec_text()) == Ok::<SampleSet, GeneralFault>(s),
{
    reveal_strlit("NoChange");
    reveal_strlit("Below");
    reveal_strlit("Above");
    reveal_strlit("Normal");
    reveal_strlit("Soft");
    reveal_strlit("Drum");
    assert("Below"@.len() == 5 && "NoChange"@.len() == 8 && "Above"@.len() == 5);
    assert("Below"@[0] == 'B' && "Above"@[0] == 'A');
    assert("Soft"@.len() == 4 && "Normal"@.len() == 6 && "Drum"@.len() == 4);
    assert("Soft"@[0] == 'S' && "Drum"@[0] == 'D');
    assert("Below"@ != "NoChange"@);
    assert("Above"@ != "NoChange"@ && "Above"@ != "Below"@);
    assert("Soft"@ != "Normal"@);
    assert("Drum"@ != "Normal"@ && "Drum"@ != "Soft"@);
}

} // verus!

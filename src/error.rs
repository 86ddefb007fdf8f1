//! The errors that parsing reports.
use vstd::prelude::*;

verus! {

/// A value that does not spell one of the format's scalar types.
#[derive(Debug, PartialEq, Eq, Structural)]
pub enum MapTypeError {
    /// A boolean other than `0`, `1`, `true` or `false`.
    UnexpectedBoolValue,
    /// A sample set that is not an integer.
    UnexpectedSampleSetFormat,
    /// A sample set that is an integer outside `0..=3`.
    UnexpectedSampleSetValue { value: u8 },
}

/// Why a document, a section or a record could not be parsed.
#[derive(Debug, PartialEq, Eq)]
pub enum BeatmapParseError {
    /// A field line without `:`.
    NotValidPair,
    /// A value that does not parse as the type of the named field.
    InvalidFormat { field: String },
    /// A commentary line of a list section; skipped, never reported.
    CommentaryEntry,
    /// A storyboard line of a list section; skipped, never reported.
    StoryboardEntry,
    /// A mandatory section whose header is missing.
    SectionNotFound { section: String },
}

/// The model of a [`BeatmapParseError`].
pub enum ParseFault {
    NotValidPair,
    InvalidFormat(Seq<char>),
    CommentaryEntry,
    StoryboardEntry,
    SectionNotFound(Seq<char>),
}

impl View for BeatmapParseError {
    type V = ParseFault;

    open spec fn view(&self) -> ParseFault {
        match self {
            BeatmapParseError::NotValidPair => ParseFault::NotValidPair,
            BeatmapParseError::InvalidFormat { field } => ParseFault::InvalidFormat(field@),
            BeatmapParseError::CommentaryEntry => ParseFault::CommentaryEntry,
            BeatmapParseError::StoryboardEntry => ParseFault::StoryboardEntry,
            BeatmapParseError::SectionNotFound { section } => ParseFault::SectionNotFound(
                section@,
            ),
        }
    }
}

/// The model of a parse result.
pub open spec fn result_view<T: View>(r: Result<T, BeatmapParseError>) -> Result<T::V, ParseFault> {
    match r {
        Ok(x) => Ok(x@),
        Err(e) => Err(e@),
    }
}

/// The error for a malformed value of the field `name`.
pub fn invalid(name: &str) -> (e: BeatmapParseError)
    ensures
        e@ == ParseFault::InvalidFormat(name@),
{
    BeatmapParseError::InvalidFormat { field: name.to_owned() }
}

/// A value of the general section that does not spell its type.
#[derive(Debug, PartialEq, Eq)]
#[allow(inconsistent_fields)]
pub enum GeneralError {
    UnexpectedCountdownValue { value: i32 },
    UnexpectedCountdownFormat,
    UnexpectedGamemodeValue { value: i32 },
    UnexpectedGamemodeFormat,
    UnexpectedOverlayPosValue { value: String },
    UnexpectedSampleSetValue { value: String },
}

/// The model of a [`GeneralError`].
pub enum GeneralFault {
    UnexpectedCountdownValue(i32),
    UnexpectedCountdownFormat,
    UnexpectedGamemodeValue(i32),
    UnexpectedGamemodeFormat,
    UnexpectedOverlayPosValue(Seq<char>),
    UnexpectedSampleSetValue(Seq<char>),
}

impl View for GeneralError {
    type V = GeneralFault;

    open spec fn view(&self) -> GeneralFault {
        match self {
            GeneralError::UnexpectedCountdownValue { value } =>
                GeneralFault::UnexpectedCountdownValue(*value),
            GeneralError::UnexpectedCountdownFormat => GeneralFault::UnexpectedCountdownFormat,
            GeneralError::UnexpectedGamemodeValue { value } =>
                GeneralFault::UnexpectedGamemodeValue(*value),
            GeneralError::UnexpectedGamemodeFormat => GeneralFault::UnexpectedGamemodeFormat,
            GeneralError::UnexpectedOverlayPosValue { value } =>
                GeneralFault::UnexpectedOverlayPosValue(value@),
            GeneralError::UnexpectedSampleSetValue { value } =>
                GeneralFault::UnexpectedSampleSetValue(value@),
        }
    }
}

/// The model of a result of the general section's value types.
pub open spec fn general_view<T>(r: Result<T, GeneralError>) -> Result<T, GeneralFault> {
    match r {
        Ok(x) => Ok(x),
        Err(e) => Err(e@),
    }
}

/// The error for a general-section value `s` that is no overlay position.
pub fn overlay_error(s: &[char]) -> (e: GeneralError)
    ensures
        e@ == GeneralFault::UnexpectedOverlayPosValue(s@),
{
    GeneralError::UnexpectedOverlayPosValue { value: crate::text::string_of(s) }
}

/// The error for a general-section value `s` that is no sample set.
pub fn sample_set_error(s: &[char]) -> (e: GeneralError)
    ensures
        e@ == GeneralFault::UnexpectedSampleSetValue(s@),
{
    GeneralError::UnexpectedSampleSetValue { value: crate::text::string_of(s) }
}

/// An event type other than those the events section knows.
#[derive(Debug, PartialEq, Eq)]
pub enum EventsError {
    UnexpectedEventType { value: String },
}

} // verus!

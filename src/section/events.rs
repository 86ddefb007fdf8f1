//! The events section: backgrounds, videos and breaks.
use vstd::prelude::*;
use crate::error::{invalid, result_view, BeatmapParseError, EventsError, ParseFault};
use crate::number::{i32_of, int_text, nat_text, parse_i32, parse_u32, push_i32, push_u64, u32_of};
use crate::section::CommaListElement;
use crate::text::{
    chars_of, fields_of, is_text, piece, piece_at, split, starts_with, starts_with_chars,
    string_of, trim, trim_all, trim_by, trim_chars_by, views,
};

verus! {

/// The model of [`BackgroundParams`] and [`VideoParams`].
pub struct FileParamsView {
    pub filename: Seq<char>,
    pub x_offset: i32,
    pub y_offset: i32,
}

/// The model of [`EventType`].
pub enum EventTypeView {
    Background(FileParamsView),
    Video(FileParamsView),
    Break(BreakParams),
}

/// Type of an event with the wrapped event params.
/// Some events may be referred to by either a name or a number.
#[derive(Clone, Debug, PartialEq, Eq)]
pub enum EventType {
    Background(BackgroundParams),
    Video(VideoParams),
    Break(BreakParams),
}

/// The image shown behind the playfield.
#[derive(Clone, Debug, Default, PartialEq, Eq)]
pub struct BackgroundParams {
    /// Location of the background image relative to the beatmap directory.
    pub filename: String,
    /// X offset in osu! pixels from the centre of the screen.
    pub x_offset: i32,
    /// Y offset in osu! pixels from the centre of the screen.
    pub y_offset: i32,
}

/// The video played behind the playfield.
#[derive(Clone, Debug, Default, PartialEq, Eq)]
pub struct VideoParams {
    /// Location of the video relative to the beatmap directory.
    pub filename: String,
    /// X offset in osu! pixels from the centre of the screen.
    pub x_offset: i32,
    /// Y offset in osu! pixels from the centre of the screen.
    pub y_offset: i32,
}

/// A break in gameplay.
#[derive(Clone, Copy, Debug, Default, PartialEq, Eq, Structural)]
pub struct BreakParams {
    /// End time of the break, in milliseconds from the beginning of the beatmap's audio.
    pub end_time: u32,
}

impl View for BackgroundParams {
    type V = FileParamsView;

    open spec fn view(&self) -> FileParamsView {
        FileParamsView { filename: self.filename@, x_offset: self.x_offset, y_offset: self.y_offset }
    }
}

impl View for VideoParams {
    type V = FileParamsView;

    open spec fn view(&self) -> FileParamsView {
        FileParamsView { filename: self.filename@, x_offset: self.x_offset, y_offset: self.y_offset }
    }
}

impl View for BreakParams {
    type V = BreakParams;

    open spec fn view(&self) -> BreakParams {
        *self
    }
}

impl View for EventType {
    type V = EventTypeView;

    open spec fn view(&self) -> EventTypeView {
        match self {
            EventType::Background(p) => EventTypeView::Background(p@),
            EventType::Video(p) => EventTypeView::Video(p@),
            EventType::Break(p) => EventTypeView::Break(*p),
        }
    }
}

/// The text of an image or video event after its start time:
/// `"filename",x,y`.
pub open spec fn file_text(p: FileParamsView) -> Seq<char> {
    "\""@ + p.filename + "\","@ + int_text(p.x_offset as int) + ","@ + int_text(
        p.y_offset as int,
    )
}

/// The number that stands for an event type: 0, 1 or 2.
pub open spec fn type_number(t: EventTypeView) -> nat {
    match t {
        EventTypeView::Background(_) => 0,
        EventTypeView::Video(_) => 1,
        EventTypeView::Break(_) => 2,
    }
}

/// The text of the fields of an event after its start time.
pub open spec fn inner_text(t: EventTypeView) -> Seq<char> {
    match t {
        EventTypeView::Background(p) => file_text(p),
        EventTypeView::Video(p) => file_text(p),
        EventTypeView::Break(p) => nat_text(p.end_time as nat),
    }
}

/// The model of a file event whose fields take their defaults.
pub open spec fn empty_file() -> FileParamsView {
    FileParamsView { filename: Seq::empty(), x_offset: 0, y_offset: 0 }
}

/// The event type that `s` names, by name or by number, with default fields.
pub open spec fn event_type_of(s: Seq<char>) -> Option<EventTypeView> {
    if s == "Background"@ || s == "0"@ {
        Some(EventTypeView::Background(empty_file()))
    } else if s == "Video"@ || s == "1"@ {
        Some(EventTypeView::Video(empty_file()))
    } else if s == "Break"@ || s == "2"@ {
        Some(EventTypeView::Break(BreakParams { end_time: 0 }))
    } else {
        None
    }
}

/// The fields of one of the three kinds of event.
pub trait EventParams: Sized + View {
    /// The fields of `t`, when it is of this kind.
    spec fn spec_from(t: EventTypeView) -> Option<Self::V>;

    /// The fields of `t`, when it is of this kind.
    fn from_event(t: EventType) -> (r: Option<Self>)
        ensures
            match Self::spec_from(t@) {
                Some(v) => r matches Some(x) && x@ == v,
                None => r is None,
            },
    ;
}

impl EventParams for BackgroundParams {
    open spec fn spec_from(t: EventTypeView) -> Option<FileParamsView> {
        match t {
            EventTypeView::Background(p) => Some(p),
            _ => None,
        }
    }

    fn from_event(t: EventType) -> (r: Option<BackgroundParams>) {
        match t {
            EventType::Background(p) => Some(p),
            _ => None,
        }
    }
}

impl EventParams for VideoParams {
    open spec fn spec_from(t: EventTypeView) -> Option<FileParamsView> {
        match t {
            EventTypeView::Video(p) => Some(p),
            _ => None,
        }
    }

    fn from_event(t: EventType) -> (r: Option<VideoParams>) {
        match t {
            EventType::Video(p) => Some(p),
            _ => None,
        }
    }
}

impl EventParams for BreakParams {
    open spec fn spec_from(t: EventTypeView) -> Option<BreakParams> {
        match t {
            EventTypeView::Break(p) => Some(p),
            _ => None,
        }
    }

    fn from_event(t: EventType) -> (r: Option<BreakParams>) {
        match t {
            EventType::Break(p) => Some(p),
            _ => None,
        }
    }
}

impl EventType {
    /// The event type that `s` names, with default fields.
    pub fn parse_chars(s: &[char]) -> (r: Result<EventType, EventsError>)
        ensures
            match event_type_of(s@) {
                Some(t) => r matches Ok(x) && x@ == t,
                None => r matches Err(EventsError::UnexpectedEventType { value }) && value@ == s@,
            },
    {
        if is_text(s, "Background") || is_text(s, "0") {
            Ok(EventType::Background(BackgroundParams::new()))
        } else if is_text(s, "Video") || is_text(s, "1") {
            Ok(EventType::Video(VideoParams::new()))
        } else if is_text(s, "Break") || is_text(s, "2") {
            Ok(EventType::Break(BreakParams { end_time: 0 }))
        } else {
            Err(EventsError::UnexpectedEventType { value: string_of(s) })
        }
    }

    /// The event type that `s` names, with default fields.
    pub fn from_str(s: &str) -> (r: Result<EventType, EventsError>)
        ensures
            match event_type_of(s@) {
                Some(t) => r matches Ok(x) && x@ == t,
                None => r matches Err(EventsError::UnexpectedEventType { value }) && value@ == s@,
            },
    {
        let c = chars_of(s);
        EventType::parse_chars(&c)
    }

    /// The fields of this event, when it is of the kind `T`.
    pub fn try_into_inner<T: EventParams>(self) -> (r: Option<T>)
        ensures
            match T::spec_from(self@) {
                Some(v) => r matches Some(x) && x@ == v,
                None => r is None,
            },
    {
        T::from_event(self)
    }

    /// Appends the number of this event type to `buf`.
    pub fn write_number(&self, buf: &mut String)
        ensures
            final(buf)@ == old(buf)@ + nat_text(type_number(self@)),
    {
        let n: u64 = match self {
            EventType::Background(_) => 0,
            EventType::Video(_) => 1,
            EventType::Break(_) => 2,
        };
        push_u64(buf, n);
    }

    /// Appends the fields of this event after its start time to `buf`.
    pub fn write_inner(&self, buf: &mut String)
        ensures
            final(buf)@ == old(buf)@ + inner_text(self@),
    {
        match self {
            EventType::Background(p) => write_file(buf, &p.filename, p.x_offset, p.y_offset),
            EventType::Video(p) => write_file(buf, &p.filename, p.x_offset, p.y_offset),
            EventType::Break(p) => push_u64(buf, p.end_time as u64),
        }
    }

    /// The fields of this event after its start time.
    pub fn serialize_inner(&self) -> (r: String)
        ensures
            r@ == inner_text(self@),
    {
        let mut buf = String::new();
        self.write_inner(&mut buf);
        buf
    }

    /// The number of this event type, as text.
    pub fn to_string(&self) -> (r: String)
        ensures
            r@ == nat_text(type_number(self@)),
    {
        let mut buf = String::new();
        self.write_number(&mut buf);
        buf
    }
}

fn write_file(buf: &mut String, filename: &String, x: i32, y: i32)
    ensures
        final(buf)@ == old(buf)@ + file_text(
            FileParamsView { filename: filename@, x_offset: x, y_offset: y },
        ),
{
    buf.append("\"");
    buf.append(filename.as_str());
    buf.append("\",");
    push_i32(buf, x);
    buf.append(",");
    push_i32(buf, y);
    proof {
        assert(buf@ =~= old(buf)@ + file_text(
            FileParamsView { filename: filename@, x_offset: x, y_offset: y },
        ));
    }
}

impl Default for EventType {
    fn default() -> (r: EventType)
        ensures
            r@ == EventTypeView::Background(empty_file()),
    {
        EventType::Background(BackgroundParams::new())
    }
}

impl BackgroundParams {
    /// A background with no file and no offset.
    pub fn new() -> (r: BackgroundParams)
        ensures
            r@ == empty_file(),
    {
        BackgroundParams { filename: String::new(), x_offset: 0, y_offset: 0 }
    }
}

impl VideoParams {
    /// A video with no file and no offset.
    pub fn new() -> (r: VideoParams)
        ensures
            r@ == empty_file(),
    {
        VideoParams { filename: String::new(), x_offset: 0, y_offset: 0 }
    }
}

impl From<BackgroundParams> for EventType {
    fn from(p: BackgroundParams) -> (r: EventType) {
        EventType::Background(p)
    }
}

impl vstd::std_specs::convert::FromSpecImpl<BackgroundParams> for EventType {
    open spec fn obeys_from_spec() -> bool {
        true
    }

    open spec fn from_spec(p: BackgroundParams) -> EventType {
        EventType::Background(p)
    }
}

impl From<VideoParams> for EventType {
    fn from(p: VideoParams) -> (r: EventType) {
        EventType::Video(p)
    }
}

impl vstd::std_specs::convert::FromSpecImpl<VideoParams> for EventType {
    open spec fn obeys_from_spec() -> bool {
        true
    }

    open spec fn from_spec(p: VideoParams) -> EventType {
        EventType::Video(p)
    }
}

impl From<BreakParams> for EventType {
    fn from(p: BreakParams) -> (r: EventType) {
        EventType::Break(p)
    }
}

impl vstd::std_specs::convert::FromSpecImpl<BreakParams> for EventType {
    open spec fn obeys_from_spec() -> bool {
        true
    }

    open spec fn from_spec(p: BreakParams) -> EventType {
        EventType::Break(p)
    }
}

/// The model of [`Event`].
pub struct EventView {
    pub start_time: u32,
    pub event_params: EventTypeView,
}

/// A background, video or break event.
#[derive(Clone, Debug, PartialEq, Eq)]
pub struct Event {
    /// Start time of the event, in milliseconds from the beginning of the beatmap's audio.
    /// For events that do not use a start time, the default is `0`.
    pub start_time: u32,
    /// Type of the event with these params.
    pub event_params: EventType,
}

impl View for Event {
    type V = EventView;

    open spec fn view(&self) -> EventView {
        EventView { start_time: self.start_time, event_params: self.event_params@ }
    }
}

/// The fields after the start time of an event of type `t`, read from the
/// trimmed comma-separated pieces `p` of its line.
pub open spec fn event_fields(t: EventTypeView, p: Seq<Seq<char>>) -> Result<EventTypeView, ParseFault> {
    match t {
        EventTypeView::Break(_) => match piece(p, 2) {
            None => Err(ParseFault::InvalidFormat("2"@)),
            Some(e) => match u32_of(e) {
                None => Err(ParseFault::InvalidFormat("2"@)),
                Some(end_time) => Ok(EventTypeView::Break(BreakParams { end_time })),
            },
        },
        _ => match piece(p, 2) {
            None => Err(ParseFault::InvalidFormat("2"@)),
            Some(f) => match piece(p, 3) {
                None => Err(ParseFault::InvalidFormat("3"@)),
                Some(a) => match i32_of(a) {
                    None => Err(ParseFault::InvalidFormat("3"@)),
                    Some(x) => match piece(p, 4) {
                        None => Err(ParseFault::InvalidFormat("4"@)),
                        Some(b) => match i32_of(b) {
                            None => Err(ParseFault::InvalidFormat("4"@)),
                            Some(y) => {
                                let v = FileParamsView {
                                    filename: trim_by(f, Some('"')),
                                    x_offset: x,
                                    y_offset: y,
                                };
                                if t is Video {
                                    Ok(EventTypeView::Video(v))
                                } else {
                                    Ok(EventTypeView::Background(v))
                                }
                            },
                        },
                    },
                },
            },
        },
    }
}

/// Whether an event line whose first field is `t` (leading underscores
/// removed) belongs to the storyboard scripting language: an object
/// declaration (`Sprite`, `Animation`, `Sample`, or their numbers 4 to 6) or
/// one of its commands.
pub open spec fn storyboard_keyword(t: Seq<char>) -> bool {
    ||| t == "Sprite"@
    ||| t == "Animation"@
    ||| t == "Sample"@
    ||| t == "4"@
    ||| t == "5"@
    ||| t == "6"@
    ||| t == "F"@
    ||| t == "M"@
    ||| t == "MX"@
    ||| t == "MY"@
    ||| t == "S"@
    ||| t == "V"@
    ||| t == "R"@
    ||| t == "C"@
    ||| t == "P"@
    ||| t == "L"@
    ||| t == "T"@
}

fn is_storyboard_keyword(t: &[char]) -> (b: bool)
    ensures
        b == storyboard_keyword(t@),
{
    is_text(t, "Sprite") || is_text(t, "Animation") || is_text(t, "Sample") || is_text(t, "4")
        || is_text(t, "5") || is_text(t, "6") || is_text(t, "F") || is_text(t, "M") || is_text(
        t,
        "MX",
    ) || is_text(t, "MY") || is_text(t, "S") || is_text(t, "V") || is_text(t, "R") || is_text(
        t,
        "C",
    ) || is_text(t, "P") || is_text(t, "L") || is_text(t, "T")
}

impl Event {
    /// The event that the line `s` spells; a line starting with `//` is
    /// commentary, and a storyboard line is reported as such so that the
    /// list skips it.
    pub open spec fn spec_parse(s: Seq<char>) -> Result<EventView, ParseFault> {
        if starts_with(s, "//"@) {
            Err(ParseFault::CommentaryEntry)
        } else {
            let p = trim_all(split(trim(s), ','));
            if storyboard_keyword(trim_by(p[0], Some('_'))) {
                Err(ParseFault::StoryboardEntry)
            } else {
                match event_type_of(p[0]) {
                    None => Err(ParseFault::InvalidFormat("0"@)),
                    Some(t) => match event_fields(t, p) {
                        Err(e) => Err(e),
                        Ok(event_params) => match piece(p, 1) {
                            None => Err(ParseFault::InvalidFormat("1"@)),
                            Some(st) => match u32_of(st) {
                                None => Err(ParseFault::InvalidFormat("1"@)),
                                Some(start_time) => Ok(EventView { start_time, event_params }),
                            },
                        },
                    },
                }
            }
        }
    }

    /// The canonical line of `v`: type number, start time, then the fields.
    pub open spec fn spec_text(v: EventView) -> Seq<char> {
        nat_text(type_number(v.event_params)) + ","@ + nat_text(v.start_time as nat) + ","@
            + inner_text(v.event_params)
    }

    /// A background event at time zero with no file.
    pub fn new() -> (r: Event)
        ensures
            r@ == (EventView {
                start_time: 0,
                event_params: EventTypeView::Background(empty_file()),
            }),
    {
        Event { start_time: 0, event_params: EventType::Background(BackgroundParams::new()) }
    }
}

fn fields_from(t: EventType, p: &Vec<Vec<char>>) -> (r: Result<EventType, BeatmapParseError>)
    ensures
        result_view(r) == event_fields(t@, views(p@)),
{
    match t {
        EventType::Break(_) => match piece_at(p, 2) {
            None => Err(invalid("2")),
            Some(e) => match parse_u32(e) {
                None => Err(invalid("2")),
                Some(end_time) => Ok(EventType::Break(BreakParams { end_time })),
            },
        },
        _ => {
            let f = match piece_at(p, 2) {
                None => {
                    return Err(invalid("2"));
                },
                Some(f) => f,
            };
            let x = match piece_at(p, 3) {
                None => {
                    return Err(invalid("3"));
                },
                Some(a) => match parse_i32(a) {
                    None => {
                        return Err(invalid("3"));
                    },
                    Some(x) => x,
                },
            };
            let y = match piece_at(p, 4) {
                None => {
                    return Err(invalid("4"));
                },
                Some(b) => match parse_i32(b) {
                    None => {
                        return Err(invalid("4"));
                    },
                    Some(y) => y,
                },
            };
            let name = string_of(&trim_chars_by(f, Some('"')));
            match t {
                EventType::Video(_) => Ok(
                    EventType::Video(VideoParams { filename: name, x_offset: x, y_offset: y }),
                ),
                _ => Ok(
                    EventType::Background(
                        BackgroundParams { filename: name, x_offset: x, y_offset: y },
                    ),
                ),
            }
        },
    }
}

impl CommaListElement for Event {
    open spec fn spec_parse(s: Seq<char>) -> Result<EventView, ParseFault> {
        Event::spec_parse(s)
    }

    open spec fn spec_text(v: EventView) -> Seq<char> {
        Event::spec_text(v)
    }

    fn parse_chars(s: &[char]) -> (r: Result<Event, BeatmapParseError>) {
        let slashes = chars_of("//");
        if starts_with_chars(s, &slashes) {
            return Err(BeatmapParseError::CommentaryEntry);
        }
        let p = fields_of(s, ',');
        proof {
            crate::text::lemma_split_nonempty(trim(s@), ',');
        }
        if is_storyboard_keyword(&trim_chars_by(&p[0], Some('_'))) {
            return Err(BeatmapParseError::StoryboardEntry);
        }
        let t = match EventType::parse_chars(&p[0]) {
            Err(_) => {
                return Err(invalid("0"));
            },
            Ok(t) => t,
        };
        let event_params = match fields_from(t, &p) {
            Err(e) => {
                return Err(e);
            },
            Ok(v) => v,
        };
        match piece_at(&p, 1) {
            None => Err(invalid("1")),
            Some(st) => match parse_u32(st) {
                None => Err(invalid("1")),
                Some(start_time) => Ok(Event { start_time, event_params }),
            },
        }
    }

    fn write_to(&self, buf: &mut String) {
        self.event_params.write_number(buf);
        buf.append(",");
        push_u64(buf, self.start_time as u64);
        buf.append(",");
        self.event_params.write_inner(buf);
        proof {
            assert(buf@ =~= old(buf)@ + Event::spec_text(self@));
        }
    }
}

impl Event {
    /// Parses one line.
    pub fn parse(s: &str) -> (r: Result<Event, BeatmapParseError>)
        ensures
            result_view(r) == Event::spec_parse(s@),
    {
        let c = chars_of(s);
        <Event as CommaListElement>::parse_chars(&c)
    }

    /// The canonical line.
    pub fn serialize(&self) -> (r: String)
        ensures
            r@ == Event::spec_text(self@),
    {
        let mut buf = String::new();
        self.write_to(&mut buf);
        buf
    }
}

impl Default for Event {
    fn default() -> (r: Event)
        ensures
            r@ == (EventView {
                start_time: 0,
                event_params: EventTypeView::Background(empty_file()),
            }),
    {
        Event::new()
    }
}

/// An events list with one commentary line (starting with `//`) and one
/// event parses to exactly that event, whichever line comes first.
pub proof fn law_events_skip_commentary(comment: Seq<char>, data: Seq<char>, x: EventView)
    requires
        starts_with(comment, "//"@),
        Event::spec_parse(data) == Ok::<EventView, ParseFault>(x),
    ensures
        crate::section::parse_lines::<Event>(seq![comment, data]) == Ok::<
            Seq<EventView>,
            ParseFault,
        >(seq![x]),
        crate::section::parse_lines::<Event>(seq![data, comment]) == Ok::<
            Seq<EventView>,
            ParseFault,
        >(seq![x]),
{
    crate::section::law_list_skips_one_line::<Event>(comment, data, x);
}

} // verus!

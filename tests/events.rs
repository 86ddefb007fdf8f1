use osu_beatmap::error::BeatmapParseError;
use osu_beatmap::section::events::{BackgroundParams, BreakParams, Event, EventType, VideoParams};
use osu_beatmap::section::CommaListOf;

const TEST_SECTION: &str = "0,0,\"bg.jpg\",0,0
2,104177,114656
";

#[test]
fn parse_events() {
    let events: CommaListOf<Event> = CommaListOf::parse(TEST_SECTION).unwrap();

    let first_event = events.get(0).unwrap();
    let first_event_params: BackgroundParams =
        first_event.event_params.clone().try_into_inner().unwrap();

    let second_event = events.get(1).unwrap();
    let second_event_params: BreakParams =
        second_event.event_params.clone().try_into_inner().unwrap();

    assert_eq!(events.len(), 2);

    assert_eq!(first_event.start_time, 0);
    assert_eq!(first_event_params.filename, "bg.jpg");
    assert_eq!(first_event_params.x_offset, 0);
    assert_eq!(first_event_params.y_offset, 0);

    assert_eq!(second_event.start_time, 104177);
    assert_eq!(second_event_params.end_time, 114656);
}

#[test]
fn serialize_events() {
    let mut events: CommaListOf<Event> = CommaListOf::new();
    let first_event = Event {
        start_time: 0,
        event_params: EventType::Background(BackgroundParams {
            filename: String::from("bg.jpg"),
            x_offset: 0,
            y_offset: 0,
        }),
    };
    let second_event = Event {
        start_time: 104177,
        event_params: EventType::Break(BreakParams { end_time: 114656 }),
    };

    events.push(first_event);
    events.push(second_event);

    assert_eq!(events.serialize(), TEST_SECTION)
}

const TEST_BACKGROUND_EVENT: &str = "0,0,\"bg.jpg\",0,0";

#[test]
fn parse_background_event() {
    let event = Event::parse(TEST_BACKGROUND_EVENT).unwrap();
    let event_params: BackgroundParams = event.event_params.try_into_inner().unwrap();

    assert_eq!(event.start_time, 0);
    assert_eq!(event_params.filename, "bg.jpg");
    assert_eq!(event_params.x_offset, 0);
    assert_eq!(event_params.y_offset, 0);
}

#[test]
fn serialize_background_event() {
    let mut event = Event::new();
    let mut event_params: BackgroundParams = event.event_params.try_into_inner().unwrap();
    event.start_time = 0;
    event_params.filename = String::from("bg.jpg");
    event.event_params = event_params.into();

    assert_eq!(event.serialize(), TEST_BACKGROUND_EVENT)
}

#[test]
fn list_skips_commentary_and_keeps_order() {
    let text = "//Background and Video events\n2,100,200\n\n1,5,\"v.avi\",-3,4\n";
    let events: CommaListOf<Event> = CommaListOf::parse(text).unwrap();
    assert_eq!(events.len(), 2);
    let first: BreakParams = events.get(0).unwrap().event_params.clone().try_into_inner().unwrap();
    assert_eq!(first.end_time, 200);
    let second: VideoParams = events.get(1).unwrap().event_params.clone().try_into_inner().unwrap();
    assert_eq!(second.filename, "v.avi");
    assert_eq!(second.x_offset, -3);
    assert_eq!(events.serialize(), "2,100,200\n1,5,\"v.avi\",-3,4\n");
}

#[test]
fn list_with_one_commentary_line_and_one_record() {
    let events: CommaListOf<Event> = CommaListOf::parse("// a note\n0,0,\"bg.jpg\",0,0").unwrap();
    assert_eq!(events.len(), 1);
    assert_eq!(events.serialize(), "0,0,\"bg.jpg\",0,0\n");
}

#[test]
fn list_error_aborts_whole_list() {
    let result: Result<CommaListOf<Event>, BeatmapParseError> =
        CommaListOf::parse("2,100,200\nFlash,Foreground\n2,300,400");
    assert_eq!(
        result.unwrap_err(),
        BeatmapParseError::InvalidFormat {
            field: "0".to_string()
        }
    );
    assert_eq!(
        Event::parse("2,abc,5").unwrap_err(),
        BeatmapParseError::InvalidFormat {
            field: "1".to_string()
        }
    );
    assert_eq!(
        Event::parse("// comment").unwrap_err(),
        BeatmapParseError::CommentaryEntry
    );
}

#[test]
fn event_type_by_name_or_number() {
    assert_eq!(
        EventType::from_str("Break").unwrap(),
        EventType::Break(BreakParams { end_time: 0 })
    );
    assert_eq!(EventType::from_str("1").unwrap().to_string(), "1");
    assert!(EventType::from_str("Sprite").is_err());
    let video = Event::parse("Video,10,\"a.mp4\",1,2").unwrap();
    assert_eq!(video.serialize(), "1,10,\"a.mp4\",1,2");
    assert_eq!(video.event_params.serialize_inner(), "\"a.mp4\",1,2");
}

#[test]
fn storyboard_lines_are_skipped() {
    let text = "0,0,\"bg.jpg\",0,0\n//Storyboard Layer 0 (Background)\nSprite,Foreground,Centre,\"sb/a.png\",320,240\n F,0,1000,2000,0,1\n _M,0,1000,2000,0,0,10,10\nAnimation,Fail,Centre,\"b.png\",0,0,2,50\n2,5000,6000\n";
    let events: CommaListOf<Event> = CommaListOf::parse(text).unwrap();
    assert_eq!(events.len(), 2);
    assert_eq!(events.serialize(), "0,0,\"bg.jpg\",0,0\n2,5000,6000\n");
    assert_eq!(
        Event::parse("Sample,0,0,\"hit.wav\",100").unwrap_err(),
        BeatmapParseError::StoryboardEntry
    );
}

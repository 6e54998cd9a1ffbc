use webhook_notify::decode::decode_event;
use webhook_notify::dispatch::decide_dispatch;
use webhook_notify::dispatch::DispatchDecision;
use webhook_notify::encode::encode_event;
use webhook_notify::event::{Event, EventData};
use webhook_notify::filter::parse_room_filter;

fn sample_event() -> Event {
    Event {
        event_type: String::from("StreamStarted"),
        event_timestamp: String::from("2021-01-01T00:00:00"),
        event_id: String::from("e-1"),
        event_data: EventData {
            room_id: 123,
            short_id: 1,
            name: String::from("n"),
            title: String::from("Hello"),
            area_name_parent: String::from("A"),
            area_name_child: String::from("B"),
            recording: false,
            streaming: true,
            danmaku_connected: true,
        },
    }
}

fn assert_events_equal(a: &Event, b: &Event) {
    assert_eq!(a.event_type, b.event_type);
    assert_eq!(a.event_timestamp, b.event_timestamp);
    assert_eq!(a.event_id, b.event_id);
    assert_eq!(a.event_data.room_id, b.event_data.room_id);
    assert_eq!(a.event_data.short_id, b.event_data.short_id);
    assert_eq!(a.event_data.name, b.event_data.name);
    assert_eq!(a.event_data.title, b.event_data.title);
    assert_eq!(a.event_data.area_name_parent, b.event_data.area_name_parent);
    assert_eq!(a.event_data.area_name_child, b.event_data.area_name_child);
    assert_eq!(a.event_data.recording, b.event_data.recording);
    assert_eq!(a.event_data.streaming, b.event_data.streaming);
    assert_eq!(a.event_data.danmaku_connected, b.event_data.danmaku_connected);
}

#[test]
fn round_trip_plain_event() {
    let e = sample_event();
    let text = encode_event(&e);
    let back = decode_event(&text).unwrap_or_else(|_| panic!("round trip failed"));
    assert_events_equal(&e, &back);
}

#[test]
fn round_trip_with_escapes_and_unicode() {
    let mut e = sample_event();
    e.event_data.title = String::from("a \"quoted\" \\ line\nwith\ttabs\u{1}");
    e.event_data.name = String::from("房间名 🎉");
    e.event_data.room_id = i64::MIN;
    e.event_data.short_id = i64::MAX;
    let text = encode_event(&e);
    let back = decode_event(&text).unwrap_or_else(|_| panic!("round trip failed"));
    assert_events_equal(&e, &back);
}

#[test]
fn encoded_form_is_exact() {
    let e = sample_event();
    let text = encode_event(&e);
    assert_eq!(
        text,
        "{\"EventType\":\"StreamStarted\",\"EventTimestamp\":\"2021-01-01T00:00:00\",\"EventId\":\"e-1\",\"EventData\":{\"RoomId\":123,\"ShortId\":1,\"Name\":\"n\",\"Title\":\"Hello\",\"AreaNameParent\":\"A\",\"AreaNameChild\":\"B\",\"Recording\":false,\"Streaming\":true,\"DanmakuConnected\":true}}"
    );
}

#[test]
fn decode_accepts_whitespace_and_unknown_fields() {
    let text = "{ \"EventType\" : \"StreamStarted\",\n \"Extra\": [1, {\"x\": null}, \"s\"],\n \"EventTimestamp\": \"t\", \"EventId\": \"1\",\n \"EventData\": { \"RoomId\": 7, \"ShortId\": 0, \"Name\": \"n\", \"Title\": \"T\", \"AreaNameParent\": \"p\", \"AreaNameChild\": \"c\", \"Recording\": true, \"Streaming\": false, \"DanmakuConnected\": false, \"Unknown\": -3 } }";
    let e = decode_event(text).unwrap_or_else(|_| panic!("decode failed"));
    assert_eq!(e.event_data.room_id, 7);
    assert_eq!(e.event_data.title, "T");
    assert!(e.event_data.recording);
}

#[test]
fn decode_unescapes_standard_escapes() {
    let text = "{\"EventType\":\"\\u0041\\n\\t\\\"\\\\\\/\",\"EventTimestamp\":\"t\",\"EventId\":\"1\",\"EventData\":{\"RoomId\":1,\"ShortId\":1,\"Name\":\"\",\"Title\":\"\",\"AreaNameParent\":\"\",\"AreaNameChild\":\"\",\"Recording\":false,\"Streaming\":false,\"DanmakuConnected\":false}}";
    let e = decode_event(text).unwrap_or_else(|_| panic!("decode failed"));
    assert_eq!(e.event_type, "A\n\t\"\\/");
}

#[test]
fn decode_rejects_malformed_bodies() {
    let cases = [
        "",
        "null",
        "[1,2]",
        "{",
        "{ not json",
        "{\"EventType\":\"x\"}",
        "{\"EventType\":1,\"EventTimestamp\":\"t\",\"EventId\":\"1\",\"EventData\":{\"RoomId\":1,\"ShortId\":1,\"Name\":\"\",\"Title\":\"\",\"AreaNameParent\":\"\",\"AreaNameChild\":\"\",\"Recording\":false,\"Streaming\":false,\"DanmakuConnected\":false}}",
        "{\"EventType\":\"x\",\"EventType\":\"y\",\"EventTimestamp\":\"t\",\"EventId\":\"1\",\"EventData\":{\"RoomId\":1,\"ShortId\":1,\"Name\":\"\",\"Title\":\"\",\"AreaNameParent\":\"\",\"AreaNameChild\":\"\",\"Recording\":false,\"Streaming\":false,\"DanmakuConnected\":false}}",
    ];
    for text in cases {
        let r = decode_event(text);
        assert!(r.is_err(), "decoder accepted: {text}");
        match r {
            Err(d) => assert!(!d.message.is_empty()),
            Ok(_) => unreachable!(),
        }
    }
}

#[test]
fn decode_rejects_trailing_text() {
    let e = sample_event();
    let mut text = encode_event(&e);
    text.push('x');
    assert!(decode_event(&text).is_err());
}

#[test]
fn decode_rejects_out_of_range_and_leading_zero_numbers() {
    let base = "{\"EventType\":\"x\",\"EventTimestamp\":\"t\",\"EventId\":\"1\",\"EventData\":{\"RoomId\":VALUE,\"ShortId\":1,\"Name\":\"\",\"Title\":\"\",\"AreaNameParent\":\"\",\"AreaNameChild\":\"\",\"Recording\":false,\"Streaming\":false,\"DanmakuConnected\":false}}";
    assert!(decode_event(&base.replace("VALUE", "9223372036854775808")).is_err());
    assert!(decode_event(&base.replace("VALUE", "-9223372036854775809")).is_err());
    assert!(decode_event(&base.replace("VALUE", "0123")).is_err());
    assert!(decode_event(&base.replace("VALUE", "1.5")).is_err());
    let ok = decode_event(&base.replace("VALUE", "9223372036854775807"));
    assert_eq!(ok.unwrap_or_else(|_| panic!("decode failed")).event_data.room_id, i64::MAX);
    let ok_min = decode_event(&base.replace("VALUE", "-9223372036854775808"));
    assert_eq!(ok_min.unwrap_or_else(|_| panic!("decode failed")).event_data.room_id, i64::MIN);
}

#[test]
fn decode_rejects_lone_surrogate_escape() {
    let base = "{\"EventType\":\"\\uD800\",\"EventTimestamp\":\"t\",\"EventId\":\"1\",\"EventData\":{\"RoomId\":1,\"ShortId\":1,\"Name\":\"\",\"Title\":\"\",\"AreaNameParent\":\"\",\"AreaNameChild\":\"\",\"Recording\":false,\"Streaming\":false,\"DanmakuConnected\":false}}";
    assert!(decode_event(base).is_err());
}

#[test]
fn filter_parses_comma_separated_entries() {
    assert_eq!(parse_room_filter("123,456"), vec![123, 456]);
    assert_eq!(parse_room_filter("456"), vec![456]);
    assert_eq!(parse_room_filter(""), Vec::<u32>::new());
}

#[test]
fn filter_drops_entries_that_do_not_parse() {
    assert_eq!(parse_room_filter("a,12,,+7,99999999999999,1x, 3,4294967295"), vec![
        12, 7, 4294967295,
    ]);
    assert_eq!(parse_room_filter("0012"), vec![12]);
    assert_eq!(parse_room_filter("-5,8"), vec![8]);
}

#[test]
fn responses_have_documented_shapes() {
    let nf = webhook_notify::http::not_found();
    assert_eq!(nf.status, 404);
    assert_eq!(nf.body, "");
    let ok = webhook_notify::http::ok_empty();
    assert_eq!(ok.status, 200);
    assert_eq!(ok.body, "");
    let se = webhook_notify::http::server_err(String::from("boom"));
    assert_eq!(se.status, 500);
    assert_eq!(se.body, "boom");
}

#[test]
fn dispatch_decision_cases() {
    let e = sample_event();
    assert_eq!(decide_dispatch(&e, &None), DispatchDecision::Notify);
    assert_eq!(decide_dispatch(&e, &Some(vec![123])), DispatchDecision::Notify);
    assert_eq!(decide_dispatch(&e, &Some(vec![456])), DispatchDecision::Suppressed);
    assert_eq!(decide_dispatch(&e, &Some(vec![])), DispatchDecision::Suppressed);
    let mut other = sample_event();
    other.event_type = String::from("SessionEnded");
    assert_eq!(decide_dispatch(&other, &None), DispatchDecision::NotApplicable);
}

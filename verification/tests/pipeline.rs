use webhook_notify::handler::{handle_request, response_after_notify, RequestOutcome};
use webhook_notify::http::HttpResponse;
use webhook_notify::dispatch::{sound_name, Platform};

const SAMPLE_BODY: &str = "{\"EventType\":\"StreamStarted\",\"EventTimestamp\":\"t\",\"EventId\":\"1\",\"EventData\":{\"RoomId\":123,\"ShortId\":1,\"Name\":\"n\",\"Title\":\"Hello\",\"AreaNameParent\":\"A\",\"AreaNameChild\":\"B\",\"Recording\":false,\"Streaming\":true,\"DanmakuConnected\":true}}";

fn expect_respond(r: RequestOutcome) -> HttpResponse {
    match r {
        RequestOutcome::Respond(resp) => resp,
        RequestOutcome::NotifyThenRespond(_) => panic!("expected an immediate response"),
    }
}

#[test]
fn wrong_method_is_404() {
    let r = handle_request("GET", "/webhook", &Ok(String::from(SAMPLE_BODY)), &None);
    let resp = expect_respond(r);
    assert_eq!(resp.status, 404);
    assert_eq!(resp.body, "");
}

#[test]
fn wrong_path_is_404() {
    let r = handle_request("POST", "/other", &Ok(String::from(SAMPLE_BODY)), &None);
    let resp = expect_respond(r);
    assert_eq!(resp.status, 404);
    assert_eq!(resp.body, "");
}

#[test]
fn wrong_route_is_404_for_any_body() {
    for body in ["", "not json", SAMPLE_BODY] {
        let r = handle_request("PUT", "/", &Ok(String::from(body)), &None);
        let resp = expect_respond(r);
        assert_eq!(resp.status, 404);
        assert_eq!(resp.body, "");
    }
    let r = handle_request("GET", "/webhook", &Err(String::from("read error")), &None);
    let resp = expect_respond(r);
    assert_eq!(resp.status, 404);
    assert_eq!(resp.body, "");
}

#[test]
fn invalid_json_is_500_with_diagnostic() {
    let r = handle_request("POST", "/webhook", &Ok(String::from("{ not json")), &None);
    let resp = expect_respond(r);
    assert_eq!(resp.status, 500);
    assert!(!resp.body.is_empty());
}

#[test]
fn body_read_failure_is_500_with_message() {
    let r = handle_request("POST", "/webhook", &Err(String::from("connection reset")), &None);
    let resp = expect_respond(r);
    assert_eq!(resp.status, 500);
    assert_eq!(resp.body, "connection reset");
}

#[test]
fn non_actionable_event_is_200_without_notification() {
    let body = SAMPLE_BODY.replace("StreamStarted", "SessionEnded");
    let r = handle_request("POST", "/webhook", &Ok(body), &None);
    let resp = expect_respond(r);
    assert_eq!(resp.status, 200);
    assert_eq!(resp.body, "");
}

#[test]
fn stream_start_without_filter_notifies_once() {
    let r = handle_request("POST", "/webhook", &Ok(String::from(SAMPLE_BODY)), &None);
    match r {
        RequestOutcome::NotifyThenRespond(n) => {
            assert_eq!(n.summary, "Live started!");
            assert!(n.body.contains("123"));
            assert!(n.body.contains("Hello"));
        }
        RequestOutcome::Respond(_) => panic!("expected a notification request"),
    }
}

#[test]
fn stream_start_with_excluding_filter_is_silent_200() {
    let filter = Some(vec![456u32]);
    let r = handle_request("POST", "/webhook", &Ok(String::from(SAMPLE_BODY)), &filter);
    let resp = expect_respond(r);
    assert_eq!(resp.status, 200);
    assert_eq!(resp.body, "");
}

#[test]
fn scenario_with_matching_filter() {
    let filter = Some(webhook_notify::filter::parse_room_filter("123,456"));
    let r = handle_request("POST", "/webhook", &Ok(String::from(SAMPLE_BODY)), &filter);
    match r {
        RequestOutcome::NotifyThenRespond(n) => {
            assert!(n.body.contains("123"));
            assert!(n.body.contains("Hello"));
            let resp = response_after_notify(Ok(()));
            assert_eq!(resp.status, 200);
            assert_eq!(resp.body, "");
        }
        RequestOutcome::Respond(_) => panic!("expected a notification request"),
    }
}

#[test]
fn scenario_with_excluding_filter() {
    let filter = Some(webhook_notify::filter::parse_room_filter("456"));
    let r = handle_request("POST", "/webhook", &Ok(String::from(SAMPLE_BODY)), &filter);
    let resp = expect_respond(r);
    assert_eq!(resp.status, 200);
    assert_eq!(resp.body, "");
}

#[test]
fn notification_failure_maps_to_500() {
    let resp = response_after_notify(Err(String::from("no notification daemon")));
    assert_eq!(resp.status, 500);
    assert_eq!(resp.body, "no notification daemon");
}

#[test]
fn notification_success_maps_to_200() {
    let resp = response_after_notify(Ok(()));
    assert_eq!(resp.status, 200);
    assert_eq!(resp.body, "");
}

#[test]
fn notification_body_text_is_exact() {
    let body = SAMPLE_BODY;
    let r = handle_request("POST", "/webhook", &Ok(String::from(body)), &None);
    match r {
        RequestOutcome::NotifyThenRespond(n) => {
            assert_eq!(n.body, "Room 123 is streaming.\n\nHello");
        }
        RequestOutcome::Respond(_) => panic!("expected a notification request"),
    }
}

#[test]
fn negative_room_id_truncates_into_filter_width() {
    // The wire value is a signed 64-bit integer; the filter stores unsigned
    // 32-bit identifiers. The comparison narrows by truncation, so -1 meets
    // a filter entry of u32::MAX. This mirrors the documented narrowing.
    let body = SAMPLE_BODY.replace("\"RoomId\":123", "\"RoomId\":-1");
    let filter = Some(vec![u32::MAX]);
    let r = handle_request("POST", "/webhook", &Ok(body), &filter);
    assert!(matches!(r, RequestOutcome::NotifyThenRespond(_)));
}

#[test]
fn wide_room_id_truncates_into_filter_width() {
    // 2^32 + 5 narrows to 5 when compared against the filter.
    let body = SAMPLE_BODY.replace("\"RoomId\":123", "\"RoomId\":4294967301");
    let filter = Some(vec![5u32]);
    let r = handle_request("POST", "/webhook", &Ok(body), &filter);
    assert!(matches!(r, RequestOutcome::NotifyThenRespond(_)));
    let filter2 = Some(vec![4294967295u32]);
    let body2 = SAMPLE_BODY.replace("\"RoomId\":123", "\"RoomId\":4294967301");
    let r2 = handle_request("POST", "/webhook", &Ok(body2), &filter2);
    assert!(matches!(r2, RequestOutcome::Respond(_)));
}

#[test]
fn sound_names_per_platform() {
    assert_eq!(sound_name(Platform::MacOs), "Submarine");
    assert_eq!(sound_name(Platform::OtherUnix), "message-new-instant");
    assert_eq!(sound_name(Platform::Windows), "Mail");
}

//! The per-request pipeline: route, decode, decide, and map every outcome to
//! an HTTP response. Each request is one independent pass through this
//! module; the caller performs the transport and, when asked to, the desktop
//! notification.

use vstd::prelude::*;
use crate::decode::decode_event;
use crate::decode::spec_decode;
use crate::dispatch::decide_dispatch;
use crate::dispatch::is_stream_start;
use crate::dispatch::notification_body;
use crate::dispatch::notification_summary;
use crate::dispatch::spec_notification_body;
use crate::dispatch::spec_notification_summary;
use crate::dispatch::DispatchDecision;
use crate::filter::filter_view;
use crate::filter::spec_allows;
use crate::http::not_found;
use crate::http::ok_empty;
use crate::http::responds;
use crate::http::route_matches;
use crate::http::route_matches_spec;
use crate::http::server_err;
use crate::http::HttpResponse;

verus! {

/// The desktop notification the dispatcher asks the caller to show.
pub struct NotificationRequest {
    pub summary: String,
    pub body: String,
}

/// What the caller must do for one request: either send the response as it
/// stands, or show the notification and then send the response that
/// `response_after_notify` maps the notification result to. Exactly one
/// notification is owed per `NotifyThenRespond`, and none otherwise.
pub enum RequestOutcome {
    Respond(HttpResponse),
    NotifyThenRespond(NotificationRequest),
}

/// The outcome is an immediate response with this status and body.
pub open spec fn outcome_responds(r: &RequestOutcome, status: u16, body: Seq<char>) -> bool {
    match r {
        RequestOutcome::Respond(resp) => responds(resp, status, body),
        _ => false,
    }
}

/// Decide one inbound request. `body` is the outcome of reading the request
/// body: the text, or the transport's diagnostic when the read failed.
///
/// Anything but `POST /webhook` is `404` with an empty body. A failed body
/// read or an undecodable payload is `500` carrying the diagnostic. A decoded
/// event that is no stream start, or whose room the configured filter
/// excludes, is `200` with an empty body and no notification. Otherwise the
/// caller is asked to notify, with the summary and body texts composed here.
pub fn handle_request(
    method: &str,
    path: &str,
    body: &Result<String, String>,
    filter: &Option<Vec<u32>>,
) -> (r: RequestOutcome)
    ensures
        !route_matches_spec(method@, path@) ==> outcome_responds(&r, 404, Seq::<char>::empty()),
        route_matches_spec(method@, path@) ==> (body matches Err(m) ==> outcome_responds(
            &r,
            500,
            m@,
        )),
        route_matches_spec(method@, path@) ==> (body matches Ok(b) ==> (spec_decode(b@) is None
            ==> (match r {
            RequestOutcome::Respond(resp) => resp.status == 500 && resp.body@.len() > 0,
            _ => false,
        }))),
        route_matches_spec(method@, path@) ==> (body matches Ok(b) ==> (spec_decode(b@)
            matches Some(ev) ==> ({
            let allowed = spec_allows(filter_view(filter), ev.event_data.room_id);
            &&& !is_stream_start(ev.event_type) ==> outcome_responds(
                &r,
                200,
                Seq::<char>::empty(),
            )
            &&& is_stream_start(ev.event_type) && !allowed ==> outcome_responds(
                &r,
                200,
                Seq::<char>::empty(),
            )
            &&& is_stream_start(ev.event_type) && allowed ==> (match r {
                RequestOutcome::NotifyThenRespond(n) => n.summary@ == spec_notification_summary()
                    && n.body@ == spec_notification_body(
                    ev.event_data.room_id,
                    ev.event_data.title,
                ),
                _ => false,
            })
        }))),
{
    if !route_matches(method, path) {
        return RequestOutcome::Respond(not_found());
    }
    match body {
        Err(m) => RequestOutcome::Respond(server_err(m.clone())),
        Ok(b) => {
            match decode_event(b.as_str()) {
                Err(d) => RequestOutcome::Respond(server_err(d.message)),
                Ok(event) => {
                    match decide_dispatch(&event, filter) {
                        DispatchDecision::NotApplicable => RequestOutcome::Respond(ok_empty()),
                        DispatchDecision::Suppressed => RequestOutcome::Respond(ok_empty()),
                        DispatchDecision::Notify => RequestOutcome::NotifyThenRespond(
                            NotificationRequest {
                                summary: notification_summary(),
                                body: notification_body(&event),
                            },
                        ),
                    }
                },
            }
        },
    }
}

/// Map the notification collaborator's result to the response: success is
/// `200` with an empty body, an error is `500` carrying its diagnostic.
pub fn response_after_notify(result: Result<(), String>) -> (r: HttpResponse)
    ensures
        result is Ok ==> responds(&r, 200, Seq::<char>::empty()),
        result matches Err(m) ==> responds(&r, 500, m@),
{
    match result {
        Ok(_) => ok_empty(),
        Err(m) => server_err(m),
    }
}

} // verus!

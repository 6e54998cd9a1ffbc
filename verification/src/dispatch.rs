//! The notification dispatcher's decision and the texts of the notification.

use vstd::prelude::*;
use vstd::string::StringExecFns;
use crate::event::Event;
use crate::filter::filter_allows;
use crate::filter::filter_view;
use crate::filter::spec_allows;
use crate::num::dec_int;
use crate::num::i64_to_chars;
use crate::text::chars_to_string;
use crate::text::str_eq;

verus! {

/// The event types that indicate a stream has started.
pub open spec fn is_stream_start(t: Seq<char>) -> bool {
    t == "StreamStarted"@
}

/// What the dispatcher does with a decoded event.
#[derive(PartialEq, Eq, Structural, Clone, Copy, Debug)]
pub enum DispatchDecision {
    /// The event type is not actionable: no notification, respond `200`.
    NotApplicable,
    /// The configured filter excludes the room: no notification, respond `200`.
    Suppressed,
    /// A notification is owed for this event.
    Notify,
}

/// Decide what to do with a decoded event under the configured filter:
/// nothing for non-actionable types, a silent suppression for filtered-out
/// rooms, and otherwise a notification.
pub fn decide_dispatch(event: &Event, filter: &Option<Vec<u32>>) -> (d: DispatchDecision)
    ensures
        !is_stream_start(event.event_type@) ==> d == DispatchDecision::NotApplicable,
        is_stream_start(event.event_type@) && !spec_allows(
            filter_view(filter),
            event.event_data.room_id as int,
        ) ==> d == DispatchDecision::Suppressed,
        is_stream_start(event.event_type@) && spec_allows(
            filter_view(filter),
            event.event_data.room_id as int,
        ) ==> d == DispatchDecision::Notify,
{
    if !str_eq(event.event_type.as_str(), "StreamStarted") {
        DispatchDecision::NotApplicable
    } else if !filter_allows(filter, event.event_data.room_id) {
        DispatchDecision::Suppressed
    } else {
        DispatchDecision::Notify
    }
}

/// Summary line of the desktop notification.
pub open spec fn spec_notification_summary() -> Seq<char> {
    "Live started!"@
}

/// Body of the desktop notification: names the room and carries the title.
pub open spec fn spec_notification_body(room_id: int, title: Seq<char>) -> Seq<char> {
    "Room "@ + dec_int(room_id) + " is streaming.\n\n"@ + title
}

pub fn notification_summary() -> (r: String)
    ensures
        r@ == spec_notification_summary(),
{
    String::from_str("Live started!")
}

pub fn notification_body(event: &Event) -> (r: String)
    ensures
        r@ == spec_notification_body(event.event_data.room_id as int, event.event_data.title@),
{
    let mut s = String::from_str("Room ");
    let digits = i64_to_chars(event.event_data.room_id);
    let ds = chars_to_string(&digits);
    s.append(ds.as_str());
    s.append(" is streaming.\n\n");
    s.append(event.event_data.title.as_str());
    s
}

/// The notification body names the room identifier and ends with the title:
/// both occur verbatim inside the body text.
pub proof fn lemma_notification_body_mentions(room_id: int, title: Seq<char>)
    ensures
        ({
            let b = spec_notification_body(room_id, title);
            let d = dec_int(room_id);
            &&& b.subrange(5, 5 + d.len() as int) == d
            &&& b.subrange(b.len() - title.len(), b.len() as int) == title
        }),
{
    reveal_strlit("Room ");
    reveal_strlit(" is streaming.\n\n");
    let b = spec_notification_body(room_id, title);
    let d = dec_int(room_id);
    assert(b.subrange(5, 5 + d.len() as int) =~= d);
    assert(b.subrange(b.len() - title.len(), b.len() as int) =~= title);
}

/// Platform of the running process, for choosing the alert sound.
#[derive(PartialEq, Eq, Structural, Clone, Copy, Debug)]
pub enum Platform {
    MacOs,
    OtherUnix,
    Windows,
}

/// The platform-appropriate notification sound.
pub fn sound_name(p: Platform) -> (r: &'static str)
    ensures
        p == Platform::MacOs ==> r@ == "Submarine"@,
        p == Platform::OtherUnix ==> r@ == "message-new-instant"@,
        p == Platform::Windows ==> r@ == "Mail"@,
{
    match p {
        Platform::MacOs => "Submarine",
        Platform::OtherUnix => "message-new-instant",
        Platform::Windows => "Mail",
    }
}

} // verus!

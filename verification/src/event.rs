//! The decoded webhook event and its mathematical view.

use vstd::prelude::*;

verus! {

/// The nested payload of a webhook event.
pub struct EventData {
    pub room_id: i64,
    pub short_id: i64,
    pub name: String,
    pub title: String,
    pub area_name_parent: String,
    pub area_name_child: String,
    pub recording: bool,
    pub streaming: bool,
    pub danmaku_connected: bool,
}

/// Mathematical view of `EventData`.
pub struct EventDataView {
    pub room_id: int,
    pub short_id: int,
    pub name: Seq<char>,
    pub title: Seq<char>,
    pub area_name_parent: Seq<char>,
    pub area_name_child: Seq<char>,
    pub recording: bool,
    pub streaming: bool,
    pub danmaku_connected: bool,
}

impl View for EventData {
    type V = EventDataView;

    open spec fn view(&self) -> EventDataView {
        EventDataView {
            room_id: self.room_id as int,
            short_id: self.short_id as int,
            name: self.name@,
            title: self.title@,
            area_name_parent: self.area_name_parent@,
            area_name_child: self.area_name_child@,
            recording: self.recording,
            streaming: self.streaming,
            danmaku_connected: self.danmaku_connected,
        }
    }
}

/// A decoded webhook event.
pub struct Event {
    pub event_type: String,
    pub event_timestamp: String,
    pub event_id: String,
    pub event_data: EventData,
}

/// Mathematical view of `Event`.
pub struct EventView {
    pub event_type: Seq<char>,
    pub event_timestamp: Seq<char>,
    pub event_id: Seq<char>,
    pub event_data: EventDataView,
}

impl View for Event {
    type V = EventView;

    open spec fn view(&self) -> EventView {
        EventView {
            event_type: self.event_type@,
            event_timestamp: self.event_timestamp@,
            event_id: self.event_id@,
            event_data: self.event_data@,
        }
    }
}

/// The integer fields of the view fit the wire's signed 64-bit width;
/// the view of every `Event` value satisfies this.
pub open spec fn event_view_wf(e: EventView) -> bool {
    &&& i64::MIN <= e.event_data.room_id <= i64::MAX
    &&& i64::MIN <= e.event_data.short_id <= i64::MAX
}

} // verus!

//! The records that travel through the ingestion path.

use vstd::prelude::*;

verus! {

/// A point in time: whole seconds since the Unix epoch and the nanoseconds
/// within that second.
#[derive(Clone, Copy, Debug, PartialEq, Eq, Structural)]
pub struct Timestamp {
    pub secs: i64,
    pub nanos: u32,
}

/// What a client sends to have one interaction recorded.
#[derive(Debug)]
pub struct EventRequest {
    pub url: String,
    pub name: String,
    pub collector_id: String,
}

/// The query parameters of the collection endpoint.
#[derive(Debug)]
pub struct EventQuery {
    pub url: String,
    pub referrer: Option<String>,
    pub name: String,
    pub collector_id: String,
}

/// One tracked interaction that has been admitted but not yet persisted.
#[derive(Debug)]
pub struct NewEvent {
    pub id: String,
    pub url: String,
    pub referrer: Option<String>,
    pub name: String,
    pub timestamp: Timestamp,
    pub collector_id: String,
}

/// One tracked interaction as durable storage holds it.
#[derive(Debug)]
pub struct Event {
    pub id: String,
    pub url: String,
    pub referrer: Option<String>,
    pub name: String,
    pub timestamp: Timestamp,
    pub collector_id: String,
}

/// The mathematical content of an event: its fields as character sequences.
pub struct EventView {
    pub id: Seq<char>,
    pub url: Seq<char>,
    pub referrer: Option<Seq<char>>,
    pub name: Seq<char>,
    pub timestamp: Timestamp,
    pub collector_id: Seq<char>,
}

/// The content of an optional string.
pub open spec fn opt_text(s: Option<String>) -> Option<Seq<char>> {
    match s {
        Some(t) => Some(t@),
        None => None,
    }
}

impl View for NewEvent {
    type V = EventView;

    open spec fn view(&self) -> EventView {
        EventView {
            id: self.id@,
            url: self.url@,
            referrer: opt_text(self.referrer),
            name: self.name@,
            timestamp: self.timestamp,
            collector_id: self.collector_id@,
        }
    }
}

impl View for Event {
    type V = EventView;

    open spec fn view(&self) -> EventView {
        EventView {
            id: self.id@,
            url: self.url@,
            referrer: opt_text(self.referrer),
            name: self.name@,
            timestamp: self.timestamp,
            collector_id: self.collector_id@,
        }
    }
}

impl NewEvent {
    /// Turns an admitted event into the record that storage holds, field by
    /// field.
    pub fn into_event(self) -> (stored: Event)
        ensures
            stored@ == self@,
    {
        Event {
            id: self.id,
            url: self.url,
            referrer: self.referrer,
            name: self.name,
            timestamp: self.timestamp,
            collector_id: self.collector_id,
        }
    }
}

/// The contents of a sequence of events, event by event.
pub open spec fn views(events: Seq<NewEvent>) -> Seq<EventView> {
    events.map_values(|e: NewEvent| e@)
}

} // verus!

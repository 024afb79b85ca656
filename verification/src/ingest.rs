//! The ingestion entry point: from a collection request to an admitted
//! event.
//!
//! A request is checked, its URL is cleaned, the event gets an identifier
//! and a timestamp, and the admission buffer decides whether it gets in.
//! The caller learns the outcome at once; what happens to the event after
//! admission is never reported back.

use crate::admission::{AdmissionBuffer, Backpressure};
use crate::event::{opt_text, EventQuery, EventView, NewEvent, Timestamp};
use crate::ident::{fresh_id, is_ulid, now_utc};
use vstd::prelude::*;

verus! {

/// How a collection request ended.
#[derive(Clone, Copy, Debug, PartialEq, Eq, Structural)]
pub enum RecordOutcome {
    /// The event was admitted.
    Recorded,
    /// The request names no collector.
    MissingCollectorId,
    /// The request names no URL.
    MissingUrl,
    /// The admission buffer is full.
    Backpressure,
}

impl RecordOutcome {
    /// The HTTP status that reports the outcome.
    pub fn status(&self) -> (code: u16)
        ensures
            code == match *self {
                RecordOutcome::Recorded => 200u16,
                RecordOutcome::MissingCollectorId => 400u16,
                RecordOutcome::MissingUrl => 400u16,
                RecordOutcome::Backpressure => 503u16,
            },
    {
        match self {
            RecordOutcome::Recorded => 200,
            RecordOutcome::MissingCollectorId => 400,
            RecordOutcome::MissingUrl => 400,
            RecordOutcome::Backpressure => 503,
        }
    }

    /// The message that reports the outcome.
    pub fn message(&self) -> (text: &'static str)
        ensures
            text@ == match *self {
                RecordOutcome::Recorded => "Event recorded successfully"@,
                RecordOutcome::MissingCollectorId => "Missing collector_id"@,
                RecordOutcome::MissingUrl => "Missing URL"@,
                RecordOutcome::Backpressure => "Failed to process event"@,
            },
    {
        match self {
            RecordOutcome::Recorded => "Event recorded successfully",
            RecordOutcome::MissingCollectorId => "Missing collector_id",
            RecordOutcome::MissingUrl => "Missing URL",
            RecordOutcome::Backpressure => "Failed to process event",
        }
    }
}

/// The address a request is attributed to: the forwarded address if the
/// request carries one, else the address of the peer, else `unknown`.
pub fn client_ip(forwarded: Option<String>, peer: Option<String>) -> (ip: String)
    ensures
        ip@ == match forwarded {
            Some(f) => f@,
            None => match peer {
                Some(p) => p@,
                None => "unknown"@,
            },
        },
{
    match forwarded {
        Some(f) => f,
        None => match peer {
            Some(p) => p,
            None => String::from_str("unknown"),
        },
    }
}

/// A text without the slashes at its end.
pub open spec fn without_trailing_slashes(s: Seq<char>) -> Seq<char>
    decreases s.len(),
{
    if s.len() > 0 && s.last() == '/' {
        without_trailing_slashes(s.drop_last())
    } else {
        s
    }
}

/// Removes the slashes at the end of a text.
pub fn trim_trailing_slashes(text: &str) -> (trimmed: String)
    ensures
        trimmed@ == without_trailing_slashes(text@),
{
    let mut end: usize = text.unicode_len();
    proof {
        assert(text@.subrange(0, end as int) =~= text@);
    }
    while end > 0 && text.get_char(end - 1) == '/'
        invariant
            0 <= end <= text@.len(),
            without_trailing_slashes(text@) == without_trailing_slashes(
                text@.subrange(0, end as int),
            ),
        decreases end,
    {
        proof {
            assert(text@.subrange(0, end as int).drop_last() =~= text@.subrange(
                0,
                end as int - 1,
            ));
        }
        end = end - 1;
    }
    String::from_str(text.substring_char(0, end))
}

/// The text of a URL without its query string, as the `url` crate parses
/// and writes it; `None` where the text does not parse as a URL.
pub uninterp spec fn url_without_query(raw: Seq<char>) -> Option<Seq<char>>;

/// Parses `raw` with `url::Url::parse`, clears the query with
/// `Url::set_query(None)` and writes the URL out again.
///
/// Trusted: the result depends on the text alone, so it is named by
/// [`url_without_query`]; a text that does not parse gives `None`.
#[verifier::external_body]
pub(crate) fn parse_without_query(raw: &str) -> (text: Option<String>)
    ensures
        opt_text(text) == url_without_query(raw@),
{
    match url::Url::parse(raw) {
        Ok(mut parsed) => {
            parsed.set_query(None);
            Some(parsed.to_string())
        },
        Err(_) => None,
    }
}

/// The cleaned form of a URL, given what parsing it gave: the parsed URL
/// without its query, or the text as it came where it did not parse, in
/// both cases without the slashes at the end.
pub open spec fn cleaned(raw: Seq<char>, parsed: Option<Seq<char>>) -> Seq<char> {
    match parsed {
        Some(text) => without_trailing_slashes(text),
        None => without_trailing_slashes(raw),
    }
}

/// Finishes the cleaning of a URL once it has been parsed.
pub fn finish_url(raw: &str, parsed: Option<String>) -> (clean: String)
    ensures
        clean@ == cleaned(raw@, opt_text(parsed)),
{
    match parsed {
        Some(text) => trim_trailing_slashes(text.as_str()),
        None => trim_trailing_slashes(raw),
    }
}

/// Cleans a URL: drops the query string and the slashes at the end.
pub fn clean_url(raw: &str) -> (clean: String)
    ensures
        clean@ == cleaned(raw@, url_without_query(raw@)),
{
    let parsed = parse_without_query(raw);
    finish_url(raw, parsed)
}

/// What is wrong with a request, if anything: a missing collector is
/// reported before a missing URL.
pub open spec fn rejection(collector_id: Seq<char>, url: Seq<char>) -> Option<RecordOutcome> {
    if collector_id.len() == 0 {
        Some(RecordOutcome::MissingCollectorId)
    } else if url.len() == 0 {
        Some(RecordOutcome::MissingUrl)
    } else {
        None
    }
}

/// The event that a valid request becomes, given its cleaned URL, its
/// identifier and its timestamp.
pub open spec fn event_of(
    item: EventQuery,
    url: Seq<char>,
    id: Seq<char>,
    timestamp: Timestamp,
) -> EventView {
    EventView {
        id,
        url,
        referrer: opt_text(item.referrer),
        name: item.name@,
        timestamp,
        collector_id: item.collector_id@,
    }
}

/// Checks a request: it has to name a collector and a URL.
pub fn check_request(item: &EventQuery) -> (fault: Option<RecordOutcome>)
    ensures
        fault == rejection(item.collector_id@, item.url@),
{
    if item.collector_id.as_str().is_empty() {
        Some(RecordOutcome::MissingCollectorId)
    } else if item.url.as_str().is_empty() {
        Some(RecordOutcome::MissingUrl)
    } else {
        None
    }
}

/// Builds the event of a request from the cleaned URL, the identifier and
/// the timestamp that the caller supplies.
pub fn build_event(item: EventQuery, clean: String, id: String, timestamp: Timestamp) -> (event:
    NewEvent)
    ensures
        event@ == event_of(item, clean@, id@, timestamp),
{
    NewEvent {
        id,
        url: clean,
        referrer: item.referrer,
        name: item.name,
        timestamp,
        collector_id: item.collector_id,
    }
}

/// Offers a prepared event to the admission buffer and reports the
/// outcome.
pub fn offer(buffer: &mut AdmissionBuffer, event: NewEvent) -> (outcome: RecordOutcome)
    requires
        old(buffer).wf(),
    ensures
        final(buffer).wf(),
        final(buffer)@ == old(buffer)@.submit(event),
        outcome == if old(buffer)@.admits(event) {
            RecordOutcome::Recorded
        } else {
            RecordOutcome::Backpressure
        },
{
    match buffer.submit(event) {
        Ok(()) => RecordOutcome::Recorded,
        Err(Backpressure) => RecordOutcome::Backpressure,
    }
}

/// Records one interaction.
///
/// A request without a collector or without a URL is turned away and the
/// buffer stays as it was. A valid request becomes an event with the
/// cleaned URL, a fresh identifier and the current time, and is submitted
/// to the buffer: it is recorded exactly when the buffer admits it, and met
/// with backpressure otherwise.
pub fn record_event(buffer: &mut AdmissionBuffer, item: EventQuery) -> (outcome: RecordOutcome)
    requires
        old(buffer).wf(),
    ensures
        final(buffer).wf(),
        match rejection(item.collector_id@, item.url@) {
            Some(reason) => outcome == reason && final(buffer)@ == old(buffer)@,
            None => exists|event: NewEvent|
                {
                    &&& event@ == event_of(
                        item,
                        cleaned(item.url@, url_without_query(item.url@)),
                        event.id@,
                        event.timestamp,
                    )
                    &&& is_ulid(event.id@)
                    &&& final(buffer)@ == old(buffer)@.submit(event)
                    &&& outcome == if old(buffer)@.admits(event) {
                        RecordOutcome::Recorded
                    } else {
                        RecordOutcome::Backpressure
                    }
                },
        },
{
    match check_request(&item) {
        Some(reason) => {
            return reason;
        },
        None => {},
    }
    let clean = clean_url(item.url.as_str());
    let id = fresh_id();
    let timestamp = now_utc();
    let event = build_event(item, clean, id, timestamp);
    offer(buffer, event)
}

} // verus!

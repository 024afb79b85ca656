//! The bounded admission buffer: the holding area between producers and the
//! batch scheduler.
//!
//! Every event has a cost in the unit of the admission policy. The buffer
//! admits an event only while the cost of everything queued plus the cost of
//! the newcomer stays within the configured capacity; otherwise it answers
//! with [`Backpressure`] at once and stays as it was.

use crate::event::{EventView, NewEvent};
use std::collections::VecDeque;
use vstd::prelude::*;
use vstd::utf8::encode_utf8;

verus! {

/// The unit in which occupancy and capacity are counted.
#[derive(Clone, Copy, Debug, PartialEq, Eq, Structural)]
pub enum AdmissionPolicy {
    /// Every event costs one.
    Count,
    /// Every event costs its estimated size in bytes.
    Bytes,
}

/// The signal a producer receives when the buffer cannot take its event.
#[derive(Clone, Copy, Debug, PartialEq, Eq, Structural)]
pub struct Backpressure;

/// The fixed part of an event's estimated size, in bytes.
pub const EVENT_BASE_COST: usize = 128;

/// The number of bytes that a text occupies on the heap (its UTF-8 length).
pub open spec fn text_bytes(s: Seq<char>) -> nat {
    encode_utf8(s).len()
}

/// The estimated size of an event in bytes: the fixed part plus the heap
/// bytes of each of its texts.
pub open spec fn estimated_size(e: EventView) -> nat {
    EVENT_BASE_COST as nat + text_bytes(e.id) + text_bytes(e.url) + (match e.referrer {
        Some(r) => text_bytes(r),
        None => 0,
    }) + text_bytes(e.name) + text_bytes(e.collector_id)
}

/// What one event costs under a policy.
pub open spec fn event_cost(policy: AdmissionPolicy, e: EventView) -> nat {
    match policy {
        AdmissionPolicy::Count => 1,
        AdmissionPolicy::Bytes => estimated_size(e),
    }
}

/// What a sequence of events costs under a policy.
pub open spec fn total_cost(policy: AdmissionPolicy, events: Seq<NewEvent>) -> nat
    decreases events.len(),
{
    if events.len() == 0 {
        0
    } else {
        total_cost(policy, events.drop_last()) + event_cost(policy, events.last()@)
    }
}

/// The mathematical state of an admission buffer.
pub struct BufferModel {
    /// The queued events, oldest first.
    pub queue: Seq<NewEvent>,
    pub capacity: nat,
    pub policy: AdmissionPolicy,
}

impl BufferModel {
    /// An empty buffer.
    pub open spec fn empty(capacity: nat, policy: AdmissionPolicy) -> BufferModel {
        BufferModel { queue: Seq::empty(), capacity, policy }
    }

    /// The cost of everything queued.
    pub open spec fn occupancy(self) -> nat {
        total_cost(self.policy, self.queue)
    }

    /// Whether the buffer has room for `e`.
    pub open spec fn admits(self, e: NewEvent) -> bool {
        self.occupancy() + event_cost(self.policy, e@) <= self.capacity
    }

    /// The buffer after `e` was submitted: `e` joins the end of the queue if
    /// it is admitted, and nothing changes if it is not.
    pub open spec fn submit(self, e: NewEvent) -> BufferModel {
        if self.admits(e) {
            BufferModel { queue: self.queue.push(e), ..self }
        } else {
            self
        }
    }

    /// The buffer after each event of `events` was submitted in turn.
    pub open spec fn submit_all(self, events: Seq<NewEvent>) -> BufferModel
        decreases events.len(),
    {
        if events.len() == 0 {
            self
        } else {
            self.submit_all(events.drop_last()).submit(events.last())
        }
    }

    /// The buffer after its oldest event, if any, was taken out.
    pub open spec fn take(self) -> BufferModel {
        if self.queue.len() == 0 {
            self
        } else {
            BufferModel { queue: self.queue.drop_first(), ..self }
        }
    }
}

/// The cost of a queue is the cost of its first event plus that of the rest.
pub proof fn lemma_total_cost_first(policy: AdmissionPolicy, events: Seq<NewEvent>)
    requires
        events.len() > 0,
    ensures
        total_cost(policy, events) == event_cost(policy, events.first()@) + total_cost(
            policy,
            events.drop_first(),
        ),
    decreases events.len(),
{
    if events.len() == 1 {
        assert(events.drop_last() =~= Seq::<NewEvent>::empty());
        assert(events.drop_first() =~= Seq::<NewEvent>::empty());
    } else {
        lemma_total_cost_first(policy, events.drop_last());
        assert(events.drop_last().drop_first() =~= events.drop_first().drop_last());
        assert(events.drop_last().first() == events.first());
        assert(events.drop_first().last() == events.last());
    }
}

/// Every event costs at least one unit, whatever the policy.
pub proof fn lemma_event_cost_positive(policy: AdmissionPolicy, e: EventView)
    ensures
        event_cost(policy, e) >= 1,
{
}

/// The cost of two sequences laid end to end is the sum of their costs.
pub proof fn lemma_total_cost_concat(policy: AdmissionPolicy, a: Seq<NewEvent>, b: Seq<NewEvent>)
    ensures
        total_cost(policy, a + b) == total_cost(policy, a) + total_cost(policy, b),
    decreases b.len(),
{
    if b.len() == 0 {
        assert(a + b =~= a);
    } else {
        lemma_total_cost_concat(policy, a, b.drop_last());
        assert((a + b).drop_last() =~= a + b.drop_last());
        assert((a + b).last() == b.last());
    }
}

/// Under the counting policy a sequence costs as much as it has events.
pub proof fn lemma_count_cost_is_length(events: Seq<NewEvent>)
    ensures
        total_cost(AdmissionPolicy::Count, events) == events.len(),
    decreases events.len(),
{
    if events.len() > 0 {
        lemma_count_cost_is_length(events.drop_last());
    }
}

/// Occupancy never exceeds capacity: a submission keeps a buffer within its
/// capacity.
pub proof fn lemma_submit_stays_within_capacity(buffer: BufferModel, e: NewEvent)
    requires
        buffer.occupancy() <= buffer.capacity,
    ensures
        buffer.submit(e).occupancy() <= buffer.capacity,
        buffer.submit(e).capacity == buffer.capacity,
{
    if buffer.admits(e) {
        assert(buffer.queue.push(e).drop_last() =~= buffer.queue);
    }
}

/// Occupancy falls only when an event leaves the buffer, and then by that
/// event's cost.
pub proof fn lemma_take_releases_cost(buffer: BufferModel)
    requires
        buffer.queue.len() > 0,
    ensures
        buffer.take().occupancy() + event_cost(buffer.policy, buffer.queue.first()@)
            == buffer.occupancy(),
{
    lemma_total_cost_first(buffer.policy, buffer.queue);
}

/// No loss under capacity: while the buffer has room for all of `events`,
/// every one of them is admitted, once, in the order of submission.
pub proof fn lemma_submit_all_admitted(buffer: BufferModel, events: Seq<NewEvent>)
    requires
        buffer.occupancy() + total_cost(buffer.policy, events) <= buffer.capacity,
    ensures
        buffer.submit_all(events) == (BufferModel { queue: buffer.queue + events, ..buffer }),
    decreases events.len(),
{
    if events.len() == 0 {
        assert(buffer.queue + events =~= buffer.queue);
    } else {
        let init = events.drop_last();
        lemma_submit_all_admitted(buffer, init);
        lemma_total_cost_concat(buffer.policy, buffer.queue, init);
        assert((buffer.queue + init).push(events.last()) =~= buffer.queue + events);
    }
}

/// Backpressure: once occupancy has reached capacity, a submission is
/// refused and changes nothing.
pub proof fn lemma_full_buffer_refuses(buffer: BufferModel, e: NewEvent)
    requires
        buffer.occupancy() >= buffer.capacity,
    ensures
        !buffer.admits(e),
        buffer.submit(e) == buffer,
{
    lemma_event_cost_positive(buffer.policy, e@);
}

/// Backpressure lasts: a full buffer refuses every further submission until
/// an event is taken out.
pub proof fn lemma_full_buffer_refuses_all(buffer: BufferModel, events: Seq<NewEvent>)
    requires
        buffer.occupancy() >= buffer.capacity,
    ensures
        buffer.submit_all(events) == buffer,
    decreases events.len(),
{
    if events.len() > 0 {
        lemma_full_buffer_refuses_all(buffer, events.drop_last());
        lemma_full_buffer_refuses(buffer, events.last());
    }
}

/// A bounded FIFO of admitted events.
pub struct AdmissionBuffer {
    queue: VecDeque<NewEvent>,
    capacity: usize,
    policy: AdmissionPolicy,
    occupancy: usize,
}

impl View for AdmissionBuffer {
    type V = BufferModel;

    closed spec fn view(&self) -> BufferModel {
        BufferModel { queue: self.queue@, capacity: self.capacity as nat, policy: self.policy }
    }
}

/// The heap bytes of a text.
fn text_len(text: &String) -> (n: usize)
    ensures
        n == text_bytes(text@),
{
    text.as_str().as_bytes().len()
}

/// The heap bytes of an optional text.
fn optional_len(text: &Option<String>) -> (n: usize)
    ensures
        n == match *text {
            Some(t) => text_bytes(t@),
            None => 0,
        },
{
    match text {
        Some(t) => text_len(t),
        None => 0,
    }
}

/// Adds two costs, or reports that the sum does not fit the machine word.
fn add_cost(sum: Option<usize>, part: usize) -> (r: Option<usize>)
    ensures
        match sum {
            Some(s) => match r {
                Some(t) => t == s + part,
                None => s + part > usize::MAX,
            },
            None => r is None,
        },
{
    match sum {
        Some(s) => s.checked_add(part),
        None => None,
    }
}

/// The cost of `e` under `policy`, or `None` where it exceeds every capacity
/// that a machine word can express.
pub fn cost_of(policy: AdmissionPolicy, e: &NewEvent) -> (cost: Option<usize>)
    ensures
        match cost {
            Some(c) => c == event_cost(policy, e@),
            None => event_cost(policy, e@) > usize::MAX,
        },
{
    match policy {
        AdmissionPolicy::Count => Some(1),
        AdmissionPolicy::Bytes => {
            let sum = add_cost(Some(EVENT_BASE_COST), text_len(&e.id));
            let sum = add_cost(sum, text_len(&e.url));
            let sum = add_cost(sum, optional_len(&e.referrer));
            let sum = add_cost(sum, text_len(&e.name));
            add_cost(sum, text_len(&e.collector_id))
        },
    }
}

impl AdmissionBuffer {
    /// The representation is consistent: the recorded occupancy is the cost
    /// of what is queued, and it is within the capacity.
    pub closed spec fn wf(&self) -> bool {
        &&& self.occupancy == total_cost(self.policy, self.queue@)
        &&& self.occupancy <= self.capacity
    }

    /// A well-formed buffer never holds more than its capacity.
    pub proof fn lemma_within_capacity(&self)
        requires
            self.wf(),
        ensures
            self@.occupancy() <= self@.capacity,
    {
    }

    /// An empty buffer with the given capacity, counted in the unit of
    /// `policy`.
    pub fn new(capacity: usize, policy: AdmissionPolicy) -> (buffer: AdmissionBuffer)
        ensures
            buffer.wf(),
            buffer@ == BufferModel::empty(capacity as nat, policy),
    {
        AdmissionBuffer { queue: VecDeque::new(), capacity, policy, occupancy: 0 }
    }

    /// Offers one event to the buffer without ever waiting for room.
    ///
    /// The event is queued behind everything already there exactly when the
    /// buffer admits it; otherwise the answer is `Backpressure` and the
    /// buffer is unchanged.
    pub fn submit(&mut self, event: NewEvent) -> (r: Result<(), Backpressure>)
        requires
            old(self).wf(),
        ensures
            final(self).wf(),
            r is Ok <==> old(self)@.admits(event),
            final(self)@ == old(self)@.submit(event),
    {
        let cost = cost_of(self.policy, &event);
        match cost {
            Some(c) => {
                if c <= self.capacity - self.occupancy {
                    proof {
                        assert(self.queue@.push(event).drop_last() =~= self.queue@);
                    }
                    self.queue.push_back(event);
                    self.occupancy = self.occupancy + c;
                    Ok(())
                } else {
                    Err(Backpressure)
                }
            },
            None => Err(Backpressure),
        }
    }

    /// Takes the oldest queued event out, if there is one.
    pub fn take(&mut self) -> (r: Option<NewEvent>)
        requires
            old(self).wf(),
        ensures
            final(self).wf(),
            final(self)@ == old(self)@.take(),
            match r {
                Some(e) => old(self)@.queue.len() > 0 && e == old(self)@.queue.first(),
                None => old(self)@.queue.len() == 0,
            },
    {
        proof {
            if self.queue@.len() > 0 {
                lemma_total_cost_first(self.policy, self.queue@);
            }
        }
        match self.queue.pop_front() {
            Some(event) => {
                let cost = cost_of(self.policy, &event);
                match cost {
                    Some(c) => {
                        self.occupancy = self.occupancy - c;
                    },
                    None => {},
                }
                assert(self.queue@ =~= old(self).queue@.drop_first());
                Some(event)
            },
            None => None,
        }
    }

    /// The number of queued events.
    pub fn len(&self) -> (n: usize)
        ensures
            n == self@.queue.len(),
    {
        self.queue.len()
    }

    /// Whether nothing is queued.
    pub fn is_empty(&self) -> (b: bool)
        ensures
            b == (self@.queue.len() == 0),
    {
        self.queue.len() == 0
    }

    /// The cost of everything queued, in the unit of the policy.
    pub fn occupancy(&self) -> (n: usize)
        requires
            self.wf(),
        ensures
            n == self@.occupancy(),
    {
        self.occupancy
    }

    /// The configured capacity, in the unit of the policy.
    pub fn capacity(&self) -> (n: usize)
        ensures
            n == self@.capacity,
    {
        self.capacity
    }

    /// The configured admission policy.
    pub fn policy(&self) -> (p: AdmissionPolicy)
        ensures
            p == self@.policy,
    {
        self.policy
    }

    /// Whether occupancy has reached capacity, so that every further
    /// submission is refused.
    pub fn is_full(&self) -> (b: bool)
        requires
            self.wf(),
        ensures
            b == (self@.occupancy() >= self@.capacity),
    {
        self.occupancy >= self.capacity
    }
}

} // verus!

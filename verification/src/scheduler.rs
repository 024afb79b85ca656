//! The batch scheduler: the single consumer that gathers admitted events and
//! decides when they leave as a batch.
//!
//! Two triggers detach a batch, whichever comes first: the pending events
//! reach the batch size, or the flush window has passed since the last
//! flush. The scheduler only decides; whoever drives it supplies the clock
//! and carries the batches to the sink.

use crate::event::NewEvent;
use vstd::prelude::*;

verus! {

/// An ordered group of events that leaves the scheduler in one piece.
#[derive(Debug)]
pub struct Batch {
    pub events: Vec<NewEvent>,
}

impl View for Batch {
    type V = Seq<NewEvent>;

    open spec fn view(&self) -> Seq<NewEvent> {
        self.events@
    }
}

impl Batch {
    /// The number of events in the batch.
    pub fn len(&self) -> (n: usize)
        ensures
            n == self@.len(),
    {
        self.events.len()
    }
}

/// What can happen to the scheduler: an event arrives or the timer fires,
/// each at a time read from one monotonic clock, in milliseconds.
#[derive(Debug)]
pub enum SchedulerInput {
    Arrival { event: NewEvent, now_ms: u64 },
    Tick { now_ms: u64 },
}

/// The mathematical state of a scheduler.
pub struct SchedulerModel {
    /// The events gathered since the last flush, oldest first.
    pub pending: Seq<NewEvent>,
    pub batch_size: nat,
    pub window_ms: nat,
    pub last_flush_ms: nat,
}

impl SchedulerModel {
    /// A scheduler with nothing pending whose window starts at `now_ms`.
    pub open spec fn start(batch_size: nat, window_ms: nat, now_ms: nat) -> SchedulerModel {
        SchedulerModel { pending: Seq::empty(), batch_size, window_ms, last_flush_ms: now_ms }
    }

    /// The size trigger: with one more event, the pending events reach the
    /// batch size.
    pub open spec fn size_trigger(self) -> bool {
        self.pending.len() + 1 >= self.batch_size
    }

    /// The time trigger: the window has passed since the last flush.
    pub open spec fn time_trigger(self, now_ms: nat) -> bool {
        now_ms >= self.last_flush_ms + self.window_ms
    }

    /// The state after `e` arrived at `now_ms`.
    pub open spec fn accept(self, e: NewEvent, now_ms: nat) -> SchedulerModel {
        if self.size_trigger() {
            SchedulerModel { pending: Seq::empty(), last_flush_ms: now_ms, ..self }
        } else {
            SchedulerModel { pending: self.pending.push(e), ..self }
        }
    }

    /// The batch that the arrival of `e` detaches, if any.
    pub open spec fn accept_batch(self, e: NewEvent) -> Option<Seq<NewEvent>> {
        if self.size_trigger() {
            Some(self.pending.push(e))
        } else {
            None
        }
    }

    /// The state after the timer fired at `now_ms`. A window that has passed
    /// starts anew even when nothing was pending.
    pub open spec fn tick(self, now_ms: nat) -> SchedulerModel {
        if self.time_trigger(now_ms) {
            SchedulerModel { pending: Seq::empty(), last_flush_ms: now_ms, ..self }
        } else {
            self
        }
    }

    /// The batch that the timer detaches at `now_ms`, if any. With nothing
    /// pending the trigger is a no-op.
    pub open spec fn tick_batch(self, now_ms: nat) -> Option<Seq<NewEvent>> {
        if self.time_trigger(now_ms) && self.pending.len() > 0 {
            Some(self.pending)
        } else {
            None
        }
    }

    /// The state after one input.
    pub open spec fn step(self, input: SchedulerInput) -> SchedulerModel {
        match input {
            SchedulerInput::Arrival { event, now_ms } => self.accept(event, now_ms as nat),
            SchedulerInput::Tick { now_ms } => self.tick(now_ms as nat),
        }
    }

    /// The batch that one input detaches, if any.
    pub open spec fn step_batch(self, input: SchedulerInput) -> Option<Seq<NewEvent>> {
        match input {
            SchedulerInput::Arrival { event, now_ms } => self.accept_batch(event),
            SchedulerInput::Tick { now_ms } => self.tick_batch(now_ms as nat),
        }
    }

    /// The state after a sequence of inputs.
    pub open spec fn run(self, inputs: Seq<SchedulerInput>) -> SchedulerModel
        decreases inputs.len(),
    {
        if inputs.len() == 0 {
            self
        } else {
            self.run(inputs.drop_last()).step(inputs.last())
        }
    }

    /// The batches that a sequence of inputs detaches, in the order in which
    /// they were detached.
    pub open spec fn run_batches(self, inputs: Seq<SchedulerInput>) -> Seq<Seq<NewEvent>>
        decreases inputs.len(),
    {
        if inputs.len() == 0 {
            Seq::empty()
        } else {
            let before = self.run_batches(inputs.drop_last());
            match self.run(inputs.drop_last()).step_batch(inputs.last()) {
                Some(batch) => before.push(batch),
                None => before,
            }
        }
    }
}

/// The events that a sequence of inputs brings, in order of arrival.
pub open spec fn arrivals(inputs: Seq<SchedulerInput>) -> Seq<NewEvent>
    decreases inputs.len(),
{
    if inputs.len() == 0 {
        Seq::empty()
    } else {
        match inputs.last() {
            SchedulerInput::Arrival { event, now_ms } => arrivals(inputs.drop_last()).push(event),
            SchedulerInput::Tick { now_ms } => arrivals(inputs.drop_last()),
        }
    }
}

/// The inputs that the scheduler sees when `events` arrive one after another
/// at `now_ms`.
pub open spec fn arrivals_at(events: Seq<NewEvent>, now_ms: u64) -> Seq<SchedulerInput> {
    events.map_values(|e: NewEvent| SchedulerInput::Arrival { event: e, now_ms })
}

/// The events of a sequence of batches, batch after batch.
pub open spec fn concat(batches: Seq<Seq<NewEvent>>) -> Seq<NewEvent>
    decreases batches.len(),
{
    if batches.len() == 0 {
        Seq::empty()
    } else {
        concat(batches.drop_last()) + batches.last()
    }
}

impl SchedulerModel {
    /// Between two inputs fewer events are pending than the batch size asks
    /// for (none at all where the batch size is zero).
    pub open spec fn wf(self) -> bool {
        self.pending.len() == 0 || self.pending.len() < self.batch_size
    }
}

/// Adding a batch to a sequence of batches adds its events at the end.
pub proof fn lemma_concat_push(batches: Seq<Seq<NewEvent>>, batch: Seq<NewEvent>)
    ensures
        concat(batches.push(batch)) == concat(batches) + batch,
{
    assert(batches.push(batch).drop_last() =~= batches);
}

/// The events of two sequences of batches laid end to end.
pub proof fn lemma_concat_append(a: Seq<Seq<NewEvent>>, b: Seq<Seq<NewEvent>>)
    ensures
        concat(a + b) == concat(a) + concat(b),
    decreases b.len(),
{
    if b.len() == 0 {
        assert(a + b =~= a);
        assert(concat(a) + concat(b) =~= concat(a));
    } else {
        lemma_concat_append(a, b.drop_last());
        assert((a + b).drop_last() =~= a + b.drop_last());
        assert((a + b).last() == b.last());
        assert(concat(a) + (concat(b.drop_last()) + b.last()) =~= (concat(a) + concat(
            b.drop_last(),
        )) + b.last());
    }
}

/// One input keeps the scheduler well-formed, and a batch that it detaches
/// is never empty and never larger than the batch size (one, where the
/// batch size is zero).
pub proof fn lemma_step_batch_bounds(s: SchedulerModel, input: SchedulerInput)
    requires
        s.wf(),
    ensures
        s.step(input).wf(),
        match s.step_batch(input) {
            Some(batch) => 1 <= batch.len() && (batch.len() <= s.batch_size || batch.len() == 1),
            None => true,
        },
{
}

/// The batch size and the window are fixed: no input changes them.
pub proof fn lemma_run_keeps_configuration(s: SchedulerModel, inputs: Seq<SchedulerInput>)
    ensures
        s.run(inputs).batch_size == s.batch_size,
        s.run(inputs).window_ms == s.window_ms,
    decreases inputs.len(),
{
    if inputs.len() > 0 {
        lemma_run_keeps_configuration(s, inputs.drop_last());
    }
}

/// One input neither loses nor duplicates nor reorders: what was pending
/// and what arrived is exactly what was detached followed by what is still
/// pending.
pub proof fn lemma_step_conserves(s: SchedulerModel, input: SchedulerInput)
    ensures
        match s.step_batch(input) {
            Some(batch) => batch + s.step(input).pending,
            None => s.step(input).pending,
        } == s.pending + arrivals(seq![input]),
{
    let one = seq![input];
    assert(one.drop_last() =~= Seq::<SchedulerInput>::empty());
    assert(one.last() == input);
    assert(arrivals(one.drop_last()) =~= Seq::<NewEvent>::empty());
    match input {
        SchedulerInput::Arrival { event, now_ms } => {
            assert(arrivals(one) =~= seq![event]);
            assert(s.pending + seq![event] =~= s.pending.push(event));
            assert(s.pending.push(event) + Seq::<NewEvent>::empty() =~= s.pending.push(event));
        },
        SchedulerInput::Tick { now_ms } => {
            assert(arrivals(one) =~= Seq::<NewEvent>::empty());
            assert(s.pending + Seq::<NewEvent>::empty() =~= s.pending);
        },
    }
}

/// Batches are detached whole and in order of arrival: whatever the inputs
/// and their times, the detached batches laid end to end, followed by what
/// is still pending, are what was pending at the start followed by the
/// arrivals.
pub proof fn lemma_run_conserves(s: SchedulerModel, inputs: Seq<SchedulerInput>)
    ensures
        concat(s.run_batches(inputs)) + s.run(inputs).pending == s.pending + arrivals(inputs),
    decreases inputs.len(),
{
    if inputs.len() == 0 {
        assert(concat(s.run_batches(inputs)) + s.pending =~= s.pending);
        assert(s.pending + arrivals(inputs) =~= s.pending);
    } else {
        let init = inputs.drop_last();
        let mid = s.run(init);
        let before = s.run_batches(init);
        lemma_run_conserves(s, init);
        match inputs.last() {
            SchedulerInput::Arrival { event, now_ms } => {
                assert(s.pending + arrivals(inputs) =~= (s.pending + arrivals(init)).push(event));
                if mid.size_trigger() {
                    lemma_concat_push(before, mid.pending.push(event));
                    assert(concat(before) + mid.pending.push(event) + Seq::<NewEvent>::empty()
                        =~= (concat(before) + mid.pending).push(event));
                } else {
                    assert(concat(before) + mid.pending.push(event) =~= (concat(before)
                        + mid.pending).push(event));
                }
            },
            SchedulerInput::Tick { now_ms } => {
                if mid.time_trigger(now_ms as nat) {
                    if mid.pending.len() > 0 {
                        lemma_concat_push(before, mid.pending);
                        assert(concat(before) + mid.pending + Seq::<NewEvent>::empty() =~= concat(
                            before,
                        ) + mid.pending);
                    } else {
                        assert(concat(before) + Seq::<NewEvent>::empty() =~= concat(before)
                            + mid.pending);
                    }
                }
            },
        }
    }
}

/// The time trigger: a tick after the window has passed leaves nothing
/// pending, and detaches exactly what was pending unless that was nothing.
pub proof fn lemma_tick_after_window(s: SchedulerModel, now_ms: nat)
    requires
        now_ms >= s.last_flush_ms + s.window_ms,
    ensures
        s.tick(now_ms).pending.len() == 0,
        s.pending.len() > 0 ==> s.tick_batch(now_ms) == Some(s.pending),
        s.pending.len() == 0 ==> s.tick_batch(now_ms) is None,
{
}

/// The size trigger: starting with nothing pending, the arrival that brings
/// the pending events up to the batch size detaches exactly the arrivals so
/// far, whatever the clock says, and no earlier arrival detaches anything.
pub proof fn lemma_size_trigger_detaches(s: SchedulerModel, events: Seq<NewEvent>, now_ms: u64)
    requires
        s.pending.len() == 0,
        1 <= events.len() <= s.batch_size,
    ensures
        ({
            let inputs = arrivals_at(events, now_ms);
            if events.len() == s.batch_size {
                &&& s.run_batches(inputs) == seq![events]
                &&& s.run(inputs).pending.len() == 0
            } else {
                &&& s.run_batches(inputs).len() == 0
                &&& s.run(inputs).pending == events
            }
        }),
    decreases events.len(),
{
    let inputs = arrivals_at(events, now_ms);
    let init = events.drop_last();
    let init_inputs = arrivals_at(init, now_ms);
    assert(inputs.drop_last() =~= init_inputs);
    assert(inputs.last() == SchedulerInput::Arrival { event: events.last(), now_ms });
    assert(init.push(events.last()) =~= events);
    if events.len() == 1 {
        assert(init_inputs.len() == 0);
        assert(s.run(init_inputs) == s);
        assert(s.run_batches(init_inputs) =~= Seq::<Seq<NewEvent>>::empty());
        assert(s.pending =~= init);
    } else {
        lemma_size_trigger_detaches(s, init, now_ms);
    }
    let mid = s.run(init_inputs);
    lemma_run_keeps_configuration(s, init_inputs);
    assert(mid.pending == init);
    assert(s.run(inputs) == mid.step(inputs.last()));
    assert(mid.pending.push(events.last()) == events);
    if events.len() == s.batch_size {
        assert(mid.size_trigger());
        assert(s.run_batches(inputs) == s.run_batches(init_inputs).push(events));
        assert(Seq::<Seq<NewEvent>>::empty().push(events) =~= seq![events]);
    } else {
        assert(!mid.size_trigger());
    }
}

/// The single consumer's accumulation state.
pub struct BatchScheduler {
    pending: Vec<NewEvent>,
    batch_size: usize,
    window_ms: u64,
    last_flush_ms: u64,
}

impl View for BatchScheduler {
    type V = SchedulerModel;

    closed spec fn view(&self) -> SchedulerModel {
        SchedulerModel {
            pending: self.pending@,
            batch_size: self.batch_size as nat,
            window_ms: self.window_ms as nat,
            last_flush_ms: self.last_flush_ms as nat,
        }
    }
}

impl BatchScheduler {
    /// Between two inputs fewer events are pending than the batch size asks
    /// for (none at all where the batch size is zero).
    pub open spec fn wf(&self) -> bool {
        self@.wf()
    }

    /// A scheduler with nothing pending. Its first window starts at `now_ms`.
    pub fn new(batch_size: usize, window_ms: u64, now_ms: u64) -> (scheduler: BatchScheduler)
        ensures
            scheduler.wf(),
            scheduler@ == SchedulerModel::start(batch_size as nat, window_ms as nat, now_ms as nat),
    {
        BatchScheduler { pending: Vec::new(), batch_size, window_ms, last_flush_ms: now_ms }
    }

    /// Detaches everything pending and starts a new window at `now_ms`.
    fn detach(&mut self, now_ms: u64) -> (batch: Batch)
        ensures
            batch@ == old(self)@.pending,
            final(self)@ == (SchedulerModel {
                pending: Seq::empty(),
                last_flush_ms: now_ms as nat,
                ..old(self)@
            }),
    {
        let mut events: Vec<NewEvent> = Vec::new();
        std::mem::swap(&mut self.pending, &mut events);
        self.last_flush_ms = now_ms;
        Batch { events }
    }

    /// Takes in one event at `now_ms`.
    ///
    /// The event joins the pending ones. If they thereby reach the batch
    /// size, all of them leave as one batch, in order of arrival, and a new
    /// window starts; otherwise nothing leaves.
    pub fn on_event(&mut self, event: NewEvent, now_ms: u64) -> (flush: Option<Batch>)
        requires
            old(self).wf(),
        ensures
            final(self).wf(),
            final(self)@ == old(self)@.accept(event, now_ms as nat),
            match flush {
                Some(batch) => old(self)@.accept_batch(event) == Some(batch@),
                None => old(self)@.accept_batch(event) is None,
            },
    {
        self.pending.push(event);
        if self.pending.len() >= self.batch_size {
            let batch = self.detach(now_ms);
            Some(batch)
        } else {
            None
        }
    }

    /// Reacts to the timer at `now_ms`.
    ///
    /// If the window has passed since the last flush, whatever is pending
    /// leaves as one batch and a new window starts; with nothing pending the
    /// window starts anew and nothing leaves. Before that, nothing happens.
    pub fn on_tick(&mut self, now_ms: u64) -> (flush: Option<Batch>)
        requires
            old(self).wf(),
        ensures
            final(self).wf(),
            final(self)@ == old(self)@.tick(now_ms as nat),
            match flush {
                Some(batch) => old(self)@.tick_batch(now_ms as nat) == Some(batch@),
                None => old(self)@.tick_batch(now_ms as nat) is None,
            },
    {
        if now_ms >= self.last_flush_ms && now_ms - self.last_flush_ms >= self.window_ms {
            let batch = self.detach(now_ms);
            if batch.events.len() > 0 {
                Some(batch)
            } else {
                None
            }
        } else {
            None
        }
    }

    /// Detaches whatever is pending at once, without waiting for a trigger,
    /// and starts a new window: the last flush before the service stops.
    pub fn flush_now(&mut self, now_ms: u64) -> (flush: Option<Batch>)
        requires
            old(self).wf(),
        ensures
            final(self).wf(),
            final(self)@ == (SchedulerModel {
                pending: Seq::empty(),
                last_flush_ms: now_ms as nat,
                ..old(self)@
            }),
            match flush {
                Some(batch) => batch@ == old(self)@.pending && batch@.len() > 0,
                None => old(self)@.pending.len() == 0,
            },
    {
        let batch = self.detach(now_ms);
        if batch.events.len() > 0 {
            Some(batch)
        } else {
            None
        }
    }

    /// Applies one input: an arrival or a timer tick.
    pub fn step(&mut self, input: SchedulerInput) -> (flush: Option<Batch>)
        requires
            old(self).wf(),
        ensures
            final(self).wf(),
            final(self)@ == old(self)@.step(input),
            match flush {
                Some(batch) => old(self)@.step_batch(input) == Some(batch@),
                None => old(self)@.step_batch(input) is None,
            },
    {
        match input {
            SchedulerInput::Arrival { event, now_ms } => self.on_event(event, now_ms),
            SchedulerInput::Tick { now_ms } => self.on_tick(now_ms),
        }
    }

    /// How long the timer has to sleep from `now_ms` until the window has
    /// passed: zero exactly when a tick at `now_ms` would fire, and otherwise
    /// the time that is left, capped at the largest value of the clock.
    pub fn wait_ms(&self, now_ms: u64) -> (wait: u64)
        ensures
            wait == if self@.time_trigger(now_ms as nat) {
                0
            } else if self@.last_flush_ms + self@.window_ms - now_ms > u64::MAX {
                u64::MAX as int
            } else {
                self@.last_flush_ms + self@.window_ms - now_ms
            },
    {
        if now_ms >= self.last_flush_ms {
            let elapsed = now_ms - self.last_flush_ms;
            if elapsed >= self.window_ms {
                0
            } else {
                self.window_ms - elapsed
            }
        } else {
            let ahead = self.last_flush_ms - now_ms;
            ahead.saturating_add(self.window_ms)
        }
    }

    /// The number of events gathered since the last flush.
    pub fn pending_len(&self) -> (n: usize)
        ensures
            n == self@.pending.len(),
    {
        self.pending.len()
    }

    /// The configured batch size.
    pub fn batch_size(&self) -> (n: usize)
        ensures
            n == self@.batch_size,
    {
        self.batch_size
    }

    /// The configured flush window, in milliseconds.
    pub fn window_ms(&self) -> (n: u64)
        ensures
            n == self@.window_ms,
    {
        self.window_ms
    }

    /// The time of the last flush, in milliseconds.
    pub fn last_flush_ms(&self) -> (n: u64)
        ensures
            n == self@.last_flush_ms,
    {
        self.last_flush_ms
    }
}

} // verus!

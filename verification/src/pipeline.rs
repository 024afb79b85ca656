//! The consumer side of the ingestion path, and what holds of the path as a
//! whole.
//!
//! The two reactions of the consumer stand here: moving what the admission
//! buffer holds into the scheduler, and answering the timer. Every batch
//! that either of them detaches joins the sink's line at once. The lemmas
//! further down state that nothing is lost, duplicated or reordered on the
//! way from submission to storage.

use crate::admission::{
    lemma_count_cost_is_length, lemma_submit_all_admitted, total_cost, AdmissionBuffer,
    AdmissionPolicy, BufferModel,
};
use crate::event::NewEvent;
use crate::scheduler::{
    arrivals, arrivals_at, concat, lemma_concat_append, lemma_concat_push, lemma_run_conserves,
    lemma_run_keeps_configuration, BatchScheduler, SchedulerInput, SchedulerModel,
};
use crate::sink::{
    lemma_healthy_storage_commits, PersistenceSink, RetryPolicy, SinkModel, WriteResult,
};
use vstd::prelude::*;

verus! {

/// What the ingestion path is set up with. The values are fixed when the
/// service starts.
#[derive(Clone, Copy, Debug)]
pub struct IngestSettings {
    /// The capacity of the admission buffer, in the unit of the policy.
    pub capacity: usize,
    /// The unit in which the buffer counts.
    pub policy: AdmissionPolicy,
    /// The number of pending events that detaches a batch.
    pub batch_size: usize,
    /// The time after the last flush that detaches a batch, in
    /// milliseconds.
    pub window_ms: u64,
    /// How often and how patiently a batch is written.
    pub retry: RetryPolicy,
}

impl Default for IngestSettings {
    /// Room for 500 events, batches of 100, a window of five seconds, and
    /// three write attempts per batch.
    fn default() -> (settings: IngestSettings)
        ensures
            settings.capacity == 500,
            settings.policy == AdmissionPolicy::Count,
            settings.batch_size == 100,
            settings.window_ms == 5_000,
            settings.retry == (RetryPolicy { max_attempts: 3, base_backoff_ms: 100 }),
    {
        IngestSettings {
            capacity: 500,
            policy: AdmissionPolicy::Count,
            batch_size: 100,
            window_ms: 5_000,
            retry: RetryPolicy::conservative(),
        }
    }
}

/// The events that arrive with the inputs of [`arrivals_at`] are the events
/// themselves.
pub proof fn lemma_arrivals_at(events: Seq<NewEvent>, now_ms: u64)
    ensures
        arrivals(arrivals_at(events, now_ms)) == events,
    decreases events.len(),
{
    let inputs = arrivals_at(events, now_ms);
    if events.len() == 0 {
        assert(arrivals(inputs) =~= events);
    } else {
        lemma_arrivals_at(events.drop_last(), now_ms);
        assert(inputs.drop_last() =~= arrivals_at(events.drop_last(), now_ms));
        assert(inputs.last() == SchedulerInput::Arrival { event: events.last(), now_ms });
        assert(events.drop_last().push(events.last()) =~= events);
    }
}

/// Moves everything that the buffer holds into the scheduler, oldest first,
/// and puts each batch that the size trigger detaches on the sink's line.
///
/// Returns the number of events moved.
pub fn drain(
    buffer: &mut AdmissionBuffer,
    scheduler: &mut BatchScheduler,
    sink: &mut PersistenceSink,
    now_ms: u64,
) -> (moved: usize)
    requires
        old(buffer).wf(),
        old(scheduler).wf(),
        old(sink).wf(),
    ensures
        final(buffer).wf(),
        final(scheduler).wf(),
        final(sink).wf(),
        moved == old(buffer)@.queue.len(),
        final(buffer)@ == (BufferModel { queue: Seq::empty(), ..old(buffer)@ }),
        final(scheduler)@ == old(scheduler)@.run(arrivals_at(old(buffer)@.queue, now_ms)),
        final(sink)@ == (SinkModel {
            queue: old(sink)@.queue + old(scheduler)@.run_batches(
                arrivals_at(old(buffer)@.queue, now_ms),
            ),
            ..old(sink)@
        }),
        concat(final(sink)@.queue) + final(scheduler)@.pending == concat(old(sink)@.queue) + old(
            scheduler,
        )@.pending + old(buffer)@.queue,
{
    let ghost incoming = buffer@.queue;
    let ghost start = scheduler@;
    let ghost line = sink@;
    let total = buffer.len();
    let mut moved: usize = 0;
    proof {
        assert(incoming.skip(0) =~= incoming);
        assert(arrivals_at(incoming.take(0), now_ms) =~= Seq::<SchedulerInput>::empty());
        assert(line.queue + Seq::<Seq<NewEvent>>::empty() =~= line.queue);
    }
    loop
        invariant
            buffer.wf(),
            scheduler.wf(),
            sink.wf(),
            incoming.len() == total,
            0 <= moved <= incoming.len(),
            buffer@ == (BufferModel { queue: incoming.skip(moved as int), ..old(buffer)@ }),
            scheduler@ == start.run(arrivals_at(incoming.take(moved as int), now_ms)),
            sink@ == (SinkModel {
                queue: line.queue + start.run_batches(
                    arrivals_at(incoming.take(moved as int), now_ms),
                ),
                ..line
            }),
            incoming == old(buffer)@.queue,
            start == old(scheduler)@,
            line == old(sink)@,
        ensures
            moved == incoming.len(),
        decreases incoming.len() - moved,
    {
        let next = buffer.take();
        match next {
            Some(event) => {
                let ghost before = arrivals_at(incoming.take(moved as int), now_ms);
                let ghost after = arrivals_at(incoming.take(moved as int + 1), now_ms);
                proof {
                    assert(event == incoming[moved as int]);
                    assert(incoming.skip(moved as int).drop_first() =~= incoming.skip(
                        moved as int + 1,
                    ));
                    assert(after.drop_last() =~= before);
                    assert(after.last() == SchedulerInput::Arrival { event, now_ms });
                }
                let flush = scheduler.on_event(event, now_ms);
                match flush {
                    Some(batch) => {
                        sink.enqueue(batch);
                        proof {
                            assert(sink@.queue =~= line.queue + start.run_batches(after));
                        }
                    },
                    None => {},
                }
                moved = moved + 1;
            },
            None => {
                assert(incoming.skip(moved as int).len() == 0);
                break ;
            },
        }
    }
    proof {
        assert(incoming.take(moved as int) =~= incoming);
        assert(incoming.skip(moved as int) =~= Seq::<NewEvent>::empty());
        let inputs = arrivals_at(incoming, now_ms);
        let batches = start.run_batches(inputs);
        lemma_run_conserves(start, inputs);
        lemma_arrivals_at(incoming, now_ms);
        lemma_concat_append(line.queue, batches);
        assert(concat(line.queue) + concat(batches) + start.run(inputs).pending =~= concat(
            line.queue,
        ) + (concat(batches) + start.run(inputs).pending));
        assert(concat(line.queue) + (start.pending + incoming) =~= concat(line.queue)
            + start.pending + incoming);
    }
    moved
}

/// Answers the timer at `now_ms`: if the window has passed, whatever is
/// pending joins the sink's line as one batch.
///
/// Returns whether a batch was detached.
pub fn flush_due(scheduler: &mut BatchScheduler, sink: &mut PersistenceSink, now_ms: u64) -> (flushed:
    bool)
    requires
        old(scheduler).wf(),
        old(sink).wf(),
    ensures
        final(scheduler).wf(),
        final(sink).wf(),
        final(scheduler)@ == old(scheduler)@.tick(now_ms as nat),
        flushed == old(scheduler)@.tick_batch(now_ms as nat) is Some,
        final(sink)@ == match old(scheduler)@.tick_batch(now_ms as nat) {
            Some(batch) => old(sink)@.enqueue(batch),
            None => old(sink)@,
        },
{
    match scheduler.on_tick(now_ms) {
        Some(batch) => {
            sink.enqueue(batch);
            true
        },
        None => false,
    }
}

/// Empties the path before the service stops: everything that the buffer
/// holds goes through the scheduler, and whatever is then pending is
/// detached at once. Afterwards the sink's line holds, behind what it held
/// before, every event that was pending or admitted, in order.
///
/// Returns the number of events moved out of the buffer.
pub fn flush_all(
    buffer: &mut AdmissionBuffer,
    scheduler: &mut BatchScheduler,
    sink: &mut PersistenceSink,
    now_ms: u64,
) -> (moved: usize)
    requires
        old(buffer).wf(),
        old(scheduler).wf(),
        old(sink).wf(),
    ensures
        final(buffer).wf(),
        final(scheduler).wf(),
        final(sink).wf(),
        moved == old(buffer)@.queue.len(),
        final(buffer)@ == (BufferModel { queue: Seq::empty(), ..old(buffer)@ }),
        final(scheduler)@.pending.len() == 0,
        final(scheduler)@.batch_size == old(scheduler)@.batch_size,
        final(scheduler)@.window_ms == old(scheduler)@.window_ms,
        final(sink)@.failures == old(sink)@.failures,
        final(sink)@.phase == old(sink)@.phase,
        final(sink)@.policy == old(sink)@.policy,
        concat(final(sink)@.queue) == concat(old(sink)@.queue) + old(scheduler)@.pending + old(
            buffer,
        )@.queue,
{
    let ghost incoming = buffer@.queue;
    let ghost start = scheduler@;
    let ghost line = sink@.queue;
    let moved = drain(buffer, scheduler, sink, now_ms);
    proof {
        lemma_run_keeps_configuration(start, arrivals_at(incoming, now_ms));
    }
    let ghost rest = scheduler@.pending;
    let ghost mid = sink@.queue;
    match scheduler.flush_now(now_ms) {
        Some(batch) => {
            sink.enqueue(batch);
            proof {
                lemma_concat_push(mid, rest);
            }
        },
        None => {
            proof {
                assert(concat(mid) + rest =~= concat(mid));
            }
        },
    }
    moved
}

/// What reaches storage when the consumer feeds `inputs` to `scheduler`,
/// every detached batch joins the line of `sink`, and the writes end as
/// `results` say: the events of the committed batches, in the order of
/// commitment.
pub open spec fn persisted(
    scheduler: SchedulerModel,
    sink: SinkModel,
    inputs: Seq<SchedulerInput>,
    results: Seq<WriteResult>,
) -> Seq<NewEvent> {
    concat(
        (SinkModel { queue: sink.queue + scheduler.run_batches(inputs), ..sink }).committed(
            results,
        ),
    )
}

/// No loss under capacity. Let `events` be submitted to a buffer that has
/// room for all of them, let the consumer hand everything that the buffer
/// then holds to the scheduler, in order, with timer ticks in between at
/// any times, until nothing is pending any more, and let every write
/// succeed. Then storage holds what was already on its way followed by the
/// submitted events, each once, in the order of submission.
pub proof fn lemma_no_loss_under_capacity(
    buffer: BufferModel,
    scheduler: SchedulerModel,
    sink: SinkModel,
    events: Seq<NewEvent>,
    inputs: Seq<SchedulerInput>,
    results: Seq<WriteResult>,
)
    requires
        buffer.occupancy() + total_cost(buffer.policy, events) <= buffer.capacity,
        arrivals(inputs) == buffer.submit_all(events).queue,
        scheduler.run(inputs).pending.len() == 0,
        results.len() == sink.queue.len() + scheduler.run_batches(inputs).len(),
        forall|i: int| 0 <= i < results.len() ==> (#[trigger] results[i]) is Ok,
    ensures
        buffer.submit_all(events).queue == buffer.queue + events,
        persisted(scheduler, sink, inputs, results) == concat(sink.queue) + scheduler.pending
            + buffer.queue + events,
{
    lemma_submit_all_admitted(buffer, events);
    lemma_run_conserves(scheduler, inputs);
    let batches = scheduler.run_batches(inputs);
    assert(concat(batches) + scheduler.run(inputs).pending =~= concat(batches));
    let line = SinkModel { queue: sink.queue + batches, ..sink };
    lemma_healthy_storage_commits(line, results);
    assert(line.queue.take(results.len() as int) =~= line.queue);
    lemma_concat_append(sink.queue, batches);
    assert(concat(sink.queue) + (scheduler.pending + (buffer.queue + events)) =~= concat(
        sink.queue,
    ) + scheduler.pending + buffer.queue + events);
}

/// The number of events in a sequence of batches of `m` events each.
pub proof fn lemma_concat_len(producers: Seq<Seq<NewEvent>>, m: nat)
    requires
        forall|p: int| 0 <= p < producers.len() ==> (#[trigger] producers[p]).len() == m,
    ensures
        concat(producers).len() == producers.len() * m,
    decreases producers.len(),
{
    if producers.len() == 0 {
        assert(producers.len() * m == 0) by (nonlinear_arith)
            requires
                producers.len() == 0,
        ;
    } else {
        let init = producers.drop_last();
        assert forall|p: int| 0 <= p < init.len() implies (#[trigger] init[p]).len() == m by {
            assert(init[p] == producers[p]);
        }
        lemma_concat_len(init, m);
        assert(producers.last() == producers[producers.len() - 1]);
        assert(init.len() * m + m == producers.len() * m) by (nonlinear_arith)
            requires
                init.len() + 1 == producers.len(),
        ;
    }
}

/// Several producers preserve the count. Let each of the producers submit
/// `m` events, let the buffer count events and have room for all of them,
/// and let `merged` be the order in which the buffer saw the submissions,
/// whatever the interleaving. With the consumer and the storage as in
/// [`lemma_no_loss_under_capacity`], storage holds as many rows as there
/// were submissions, and they are the submitted events and no others, none
/// of them twice.
pub proof fn lemma_producers_preserve_count(
    buffer: BufferModel,
    scheduler: SchedulerModel,
    sink: SinkModel,
    producers: Seq<Seq<NewEvent>>,
    m: nat,
    merged: Seq<NewEvent>,
    inputs: Seq<SchedulerInput>,
    results: Seq<WriteResult>,
)
    requires
        forall|p: int| 0 <= p < producers.len() ==> (#[trigger] producers[p]).len() == m,
        merged.to_multiset() == concat(producers).to_multiset(),
        buffer.queue.len() == 0,
        buffer.policy == AdmissionPolicy::Count,
        buffer.capacity >= producers.len() * m,
        scheduler.pending.len() == 0,
        sink.queue.len() == 0,
        arrivals(inputs) == buffer.submit_all(merged).queue,
        scheduler.run(inputs).pending.len() == 0,
        results.len() == scheduler.run_batches(inputs).len(),
        forall|i: int| 0 <= i < results.len() ==> (#[trigger] results[i]) is Ok,
    ensures
        persisted(scheduler, sink, inputs, results).len() == producers.len() * m,
        persisted(scheduler, sink, inputs, results).to_multiset() == concat(
            producers,
        ).to_multiset(),
        persisted(scheduler, sink, inputs, results) == merged,
{
    lemma_concat_len(producers, m);
    merged.to_multiset_ensures();
    concat(producers).to_multiset_ensures();
    lemma_count_cost_is_length(merged);
    assert(buffer.queue =~= Seq::<NewEvent>::empty());
    assert(scheduler.pending =~= Seq::<NewEvent>::empty());
    assert(sink.queue =~= Seq::<Seq<NewEvent>>::empty());
    lemma_no_loss_under_capacity(buffer, scheduler, sink, merged, inputs, results);
    assert(concat(sink.queue) + scheduler.pending + buffer.queue + merged =~= merged);
}

} // verus!

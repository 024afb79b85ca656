//! The persistence sink: what happens to a batch once it has been detached.
//!
//! Detached batches wait in line and are written one at a time, oldest
//! first, so that batches are never merged or reordered. The write itself is
//! done elsewhere. The sink decides when a write may start, which is only
//! while none is under way and no backoff is pending; it is told how each
//! attempt ended and decides what follows: the batch is committed, the write
//! is retried after a backoff, or the batch is dropped once the attempts are
//! used up.

use crate::event::NewEvent;
use crate::scheduler::Batch;
use std::collections::VecDeque;
use vstd::prelude::*;

verus! {

/// Why a write attempt did not succeed.
#[derive(Clone, Copy, Debug, PartialEq, Eq, Structural)]
pub enum SinkError {
    /// Storage could not be reached; a later attempt may succeed.
    StorageUnavailable,
    /// Storage refused the write, or the attempts are used up.
    StorageWriteFailed,
}

/// How often a batch is written before it is given up, and how long to wait
/// between attempts.
#[derive(Clone, Copy, Debug, PartialEq, Eq, Structural)]
pub struct RetryPolicy {
    /// The number of write attempts a batch gets; zero counts as one.
    pub max_attempts: u32,
    /// The wait before the second attempt; it doubles with every further one.
    pub base_backoff_ms: u64,
}

/// The wait before attempt number `failures + 1`, after `failures` failed
/// attempts: the base for the first retry, doubled for each one after it.
pub open spec fn backoff_ms(base: nat, failures: nat) -> nat
    decreases failures,
{
    if failures <= 1 {
        base
    } else {
        2 * backoff_ms(base, (failures - 1) as nat)
    }
}

/// A wait capped at what the clock can express.
pub open spec fn capped(ms: nat) -> nat {
    if ms > u64::MAX {
        u64::MAX as nat
    } else {
        ms
    }
}

impl RetryPolicy {
    /// Three attempts, with waits of 100 ms and 200 ms between them.
    pub fn conservative() -> (policy: RetryPolicy)
        ensures
            policy == (RetryPolicy { max_attempts: 3, base_backoff_ms: 100 }),
    {
        RetryPolicy { max_attempts: 3, base_backoff_ms: 100 }
    }

    /// The number of attempts a batch gets.
    pub open spec fn budget(self) -> nat {
        if self.max_attempts == 0 {
            1
        } else {
            self.max_attempts as nat
        }
    }

    /// The wait after `failures` failed attempts, capped at the largest value
    /// of the clock.
    pub fn delay_ms(&self, failures: u32) -> (delay: u64)
        ensures
            delay == capped(backoff_ms(self.base_backoff_ms as nat, failures as nat)),
    {
        let mut delay: u64 = self.base_backoff_ms;
        let mut done: u32 = 1;
        while done < failures
            invariant
                1 <= done,
                done <= failures || failures == 0,
                delay == capped(
                    backoff_ms(
                        self.base_backoff_ms as nat,
                        if failures == 0 {
                            0
                        } else {
                            done as nat
                        },
                    ),
                ),
            decreases failures - done,
        {
            delay = match delay.checked_mul(2) {
                Some(d) => d,
                None => u64::MAX,
            };
            done = done + 1;
        }
        delay
    }
}

/// How one write attempt ended, as the storage collaborator reports it: the
/// number of rows written, or the reason for the failure.
pub type WriteResult = Result<usize, SinkError>;

/// What the sink decided after a write attempt.
#[derive(Debug)]
pub enum SinkOutcome {
    /// The batch is in storage; it has left the line.
    Committed { batch: Batch, rows: usize },
    /// The batch stays at the head of the line; it may be written again
    /// once the delay has passed.
    Retry { delay_ms: u64 },
    /// The batch is given up for good; it has left the line and is never
    /// queued again.
    Dropped { batch: Batch, error: SinkError },
    /// No write was under way; the result is ignored.
    Nothing,
}

/// The kind of decision, without the batch it carries.
#[derive(Clone, Copy, Debug, PartialEq, Eq, Structural)]
pub enum Verdict {
    Committed,
    Retry,
    Dropped,
    Nothing,
}

/// What the sink is doing with the head of its line.
#[derive(Clone, Copy, Debug, PartialEq, Eq, Structural)]
pub enum SinkPhase {
    /// No write is under way and none is held back.
    Idle,
    /// The head batch is being written.
    Writing,
    /// The head batch failed and waits out its backoff.
    Waiting,
}

/// The mathematical state of a sink.
pub struct SinkModel {
    /// The batches that wait to be written, oldest first.
    pub queue: Seq<Seq<NewEvent>>,
    /// The failed attempts on the batch at the head of the line.
    pub failures: nat,
    pub phase: SinkPhase,
    pub policy: RetryPolicy,
}

impl SinkModel {
    /// A sink with nothing in line.
    pub open spec fn idle(policy: RetryPolicy) -> SinkModel {
        SinkModel { queue: Seq::empty(), failures: 0, phase: SinkPhase::Idle, policy }
    }

    /// The head batch has not used up its attempts; a write or a backoff
    /// concerns a batch that is in line; and a backoff follows a failure.
    pub open spec fn wf(self) -> bool {
        &&& self.failures < self.policy.budget()
        &&& self.queue.len() == 0 ==> self.failures == 0 && self.phase == SinkPhase::Idle
        &&& self.phase == SinkPhase::Waiting ==> self.failures > 0
    }

    /// The state after a detached batch joined the line.
    pub open spec fn enqueue(self, batch: Seq<NewEvent>) -> SinkModel {
        SinkModel { queue: self.queue.push(batch), ..self }
    }

    /// Whether a write may start: a batch is in line, no write is under
    /// way and no backoff is pending.
    pub open spec fn may_write(self) -> bool {
        self.phase == SinkPhase::Idle && self.queue.len() > 0
    }

    /// The state after a write was asked for: it starts if it may, and
    /// nothing changes if it may not.
    pub open spec fn begin(self) -> SinkModel {
        if self.may_write() {
            SinkModel { phase: SinkPhase::Writing, ..self }
        } else {
            self
        }
    }

    /// The state after the backoff has passed: the head batch may be
    /// written again.
    pub open spec fn resume(self) -> SinkModel {
        if self.phase == SinkPhase::Waiting {
            SinkModel { phase: SinkPhase::Idle, ..self }
        } else {
            self
        }
    }

    /// The decision after the write under way ended with `result`.
    pub open spec fn verdict(self, result: WriteResult) -> Verdict {
        if self.phase != SinkPhase::Writing || self.queue.len() == 0 {
            Verdict::Nothing
        } else {
            match result {
                Ok(_) => Verdict::Committed,
                Err(SinkError::StorageUnavailable) => if self.failures + 1 < self.policy.budget() {
                    Verdict::Retry
                } else {
                    Verdict::Dropped
                },
                Err(SinkError::StorageWriteFailed) => Verdict::Dropped,
            }
        }
    }

    /// The state after the write under way ended with `result`.
    pub open spec fn settle(self, result: WriteResult) -> SinkModel {
        match self.verdict(result) {
            Verdict::Nothing => self,
            Verdict::Retry => SinkModel {
                failures: self.failures + 1,
                phase: SinkPhase::Waiting,
                ..self
            },
            _ => SinkModel {
                queue: self.queue.drop_first(),
                failures: 0,
                phase: SinkPhase::Idle,
                ..self
            },
        }
    }

    /// The state just before the result of the next write attempt comes
    /// in: a pending backoff has passed and the write has started.
    pub open spec fn writing(self) -> SinkModel {
        self.resume().begin()
    }

    /// The state after one whole write attempt that ended with `result`.
    pub open spec fn attempt(self, result: WriteResult) -> SinkModel {
        self.writing().settle(result)
    }

    /// The state after a sequence of write attempts.
    pub open spec fn run(self, results: Seq<WriteResult>) -> SinkModel
        decreases results.len(),
    {
        if results.len() == 0 {
            self
        } else {
            self.run(results.drop_last()).attempt(results.last())
        }
    }

    /// The batches that a sequence of write attempts commits, in order.
    pub open spec fn committed(self, results: Seq<WriteResult>) -> Seq<Seq<NewEvent>>
        decreases results.len(),
    {
        if results.len() == 0 {
            Seq::empty()
        } else {
            let before = self.run(results.drop_last()).writing();
            let sofar = self.committed(results.drop_last());
            if before.verdict(results.last()) == Verdict::Committed {
                sofar.push(before.queue.first())
            } else {
                sofar
            }
        }
    }

    /// The batches that a sequence of write attempts drops, in order.
    pub open spec fn dropped(self, results: Seq<WriteResult>) -> Seq<Seq<NewEvent>>
        decreases results.len(),
    {
        if results.len() == 0 {
            Seq::empty()
        } else {
            let before = self.run(results.drop_last()).writing();
            let sofar = self.dropped(results.drop_last());
            if before.verdict(results.last()) == Verdict::Dropped {
                sofar.push(before.queue.first())
            } else {
                sofar
            }
        }
    }
}

/// Writes are serialised: while a write is under way or a backoff is
/// pending no other write starts, and a result that comes in while no
/// write is under way changes nothing.
pub proof fn lemma_one_write_at_a_time(s: SinkModel, result: WriteResult)
    requires
        s.wf(),
    ensures
        s.phase != SinkPhase::Idle ==> s.begin() == s,
        s.begin().begin() == s.begin(),
        s.phase != SinkPhase::Writing ==> s.settle(result) == s,
        s.settle(result).phase != SinkPhase::Writing,
{
}

/// Retries are bounded: a retry is granted only while it leaves the head
/// batch within its attempts, so no batch is ever written more often than
/// the policy allows. Every step keeps the state well-formed.
pub proof fn lemma_settle_keeps_budget(s: SinkModel, result: WriteResult, batch: Seq<NewEvent>)
    requires
        s.wf(),
    ensures
        s.settle(result).wf(),
        s.begin().wf(),
        s.resume().wf(),
        s.enqueue(batch).wf(),
        s.verdict(result) == Verdict::Retry ==> s.failures + 2 <= s.policy.budget(),
        s.settle(result).policy == s.policy,
{
}

/// The line is served strictly from its head: after any sequence of write
/// attempts, what is left of it is the line as it was without the batches
/// that were committed or dropped, and nothing has been added or moved.
pub proof fn lemma_line_served_in_order(s: SinkModel, results: Seq<WriteResult>)
    ensures
        s.committed(results).len() + s.dropped(results).len() <= s.queue.len(),
        s.run(results).queue == s.queue.skip(
            (s.committed(results).len() + s.dropped(results).len()) as int,
        ),
        s.run(results).policy == s.policy,
    decreases results.len(),
{
    if results.len() == 0 {
        assert(s.queue.skip(0) =~= s.queue);
    } else {
        let init = results.drop_last();
        lemma_line_served_in_order(s, init);
        let before = s.run(init).writing();
        let n = s.committed(init).len() + s.dropped(init).len();
        if before.queue.len() > 0 {
            assert(s.queue.skip(n as int).drop_first() =~= s.queue.skip(n as int + 1));
        }
    }
}

/// Healthy storage: while every write succeeds, the batches in line are
/// committed one by one, oldest first, and none is dropped.
pub proof fn lemma_healthy_storage_commits(s: SinkModel, results: Seq<WriteResult>)
    requires
        results.len() <= s.queue.len(),
        forall|i: int| 0 <= i < results.len() ==> (#[trigger] results[i]) is Ok,
    ensures
        s.committed(results) == s.queue.take(results.len() as int),
        s.dropped(results).len() == 0,
        s.run(results).queue == s.queue.skip(results.len() as int),
        results.len() > 0 ==> s.run(results).phase == SinkPhase::Idle,
    decreases results.len(),
{
    if results.len() == 0 {
        assert(s.queue.skip(0) =~= s.queue);
        assert(s.queue.take(0) =~= Seq::<Seq<NewEvent>>::empty());
    } else {
        let init = results.drop_last();
        let k = init.len() as int;
        assert forall|i: int| 0 <= i < init.len() implies (#[trigger] init[i]) is Ok by {
            assert(init[i] == results[i]);
        }
        lemma_healthy_storage_commits(s, init);
        let before = s.run(init).writing();
        assert(results.last() == results[k]);
        assert(before.queue.len() > 0);
        assert(before.phase == SinkPhase::Writing);
        assert(before.verdict(results.last()) == Verdict::Committed);
        assert(before.queue.first() == s.queue[k]);
        assert(s.queue.take(k).push(s.queue[k]) =~= s.queue.take(k + 1));
        assert(s.queue.skip(k).drop_first() =~= s.queue.skip(k + 1));
    }
}

/// A storage that stays unavailable costs a batch its remaining attempts
/// and no more: the head batch is retried until the attempts are used up,
/// is then dropped, and the line moves on to the next batch.
pub proof fn lemma_unavailable_storage_drops_head(s: SinkModel, results: Seq<WriteResult>)
    requires
        s.wf(),
        s.queue.len() > 0,
        results.len() <= s.policy.budget() - s.failures,
        forall|i: int|
            0 <= i < results.len() ==> (#[trigger] results[i]) == Err::<usize, SinkError>(
                SinkError::StorageUnavailable,
            ),
    ensures
        s.committed(results).len() == 0,
        0 < results.len() < s.policy.budget() - s.failures ==> {
            &&& s.dropped(results).len() == 0
            &&& s.run(results) == (SinkModel {
                failures: s.failures + results.len(),
                phase: SinkPhase::Waiting,
                ..s
            })
        },
        results.len() == s.policy.budget() - s.failures ==> {
            &&& s.dropped(results) == seq![s.queue.first()]
            &&& s.run(results) == (SinkModel {
                queue: s.queue.drop_first(),
                failures: 0,
                phase: SinkPhase::Idle,
                ..s
            })
        },
    decreases results.len(),
{
    if results.len() > 0 {
        let init = results.drop_last();
        assert forall|i: int| 0 <= i < init.len() implies (#[trigger] init[i]) == Err::<
            usize,
            SinkError,
        >(SinkError::StorageUnavailable) by {
            assert(init[i] == results[i]);
        }
        lemma_unavailable_storage_drops_head(s, init);
        assert(results.last() == results[results.len() - 1]);
        if init.len() == 0 {
            assert(s.run(init) == s);
            assert(s.dropped(init) =~= Seq::<Seq<NewEvent>>::empty());
        }
        assert(s.dropped(init).len() == 0);
        let before = s.run(init).writing();
        assert(before == (SinkModel {
            failures: s.failures + init.len(),
            phase: SinkPhase::Writing,
            ..s
        }));
        assert(s.run(results) == before.settle(results.last()));
        if results.len() == s.policy.budget() - s.failures {
            assert(before.verdict(results.last()) == Verdict::Dropped);
            assert(s.dropped(init) =~= Seq::<Seq<NewEvent>>::empty());
            assert(Seq::<Seq<NewEvent>>::empty().push(s.queue.first()) =~= seq![s.queue.first()]);
        } else {
            assert(before.verdict(results.last()) == Verdict::Retry);
            assert(before.failures + 1 == s.failures + results.len());
        }
    }
}

/// The contents of a line of batches.
pub open spec fn batch_views(batches: Seq<Batch>) -> Seq<Seq<NewEvent>> {
    batches.map_values(|b: Batch| b@)
}

/// The line of detached batches and the state of the write of its head.
pub struct PersistenceSink {
    queue: VecDeque<Batch>,
    failures: u32,
    phase: SinkPhase,
    policy: RetryPolicy,
}

impl View for PersistenceSink {
    type V = SinkModel;

    closed spec fn view(&self) -> SinkModel {
        SinkModel {
            queue: batch_views(self.queue@),
            failures: self.failures as nat,
            phase: self.phase,
            policy: self.policy,
        }
    }
}

impl PersistenceSink {
    /// The state is well-formed.
    pub open spec fn wf(&self) -> bool {
        self@.wf()
    }

    /// A sink with nothing in line.
    pub fn new(policy: RetryPolicy) -> (sink: PersistenceSink)
        ensures
            sink.wf(),
            sink@ == SinkModel::idle(policy),
    {
        let sink = PersistenceSink {
            queue: VecDeque::new(),
            failures: 0,
            phase: SinkPhase::Idle,
            policy,
        };
        assert(sink@.queue =~= Seq::<Seq<NewEvent>>::empty());
        sink
    }

    /// Puts a detached batch at the end of the line.
    pub fn enqueue(&mut self, batch: Batch)
        requires
            old(self).wf(),
        ensures
            final(self).wf(),
            final(self)@ == old(self)@.enqueue(batch@),
    {
        self.queue.push_back(batch);
        assert(batch_views(self.queue@) =~= batch_views(old(self).queue@).push(batch@));
    }

    /// The oldest batch in line.
    pub fn next_batch(&self) -> (head: Option<&Batch>)
        ensures
            match head {
                Some(batch) => self@.queue.len() > 0 && batch@ == self@.queue.first(),
                None => self@.queue.len() == 0,
            },
    {
        if self.queue.len() > 0 {
            let head = &self.queue[0];
            assert(batch_views(self.queue@)[0] == head@);
            Some(head)
        } else {
            None
        }
    }

    /// Asks for a write. It starts exactly when a batch is in line, no
    /// write is under way and no backoff is pending; the batch to write is
    /// then the one [`in_flight`](Self::in_flight).
    pub fn begin_write(&mut self) -> (started: bool)
        requires
            old(self).wf(),
        ensures
            final(self).wf(),
            started == old(self)@.may_write(),
            final(self)@ == old(self)@.begin(),
    {
        let idle = match self.phase {
            SinkPhase::Idle => true,
            _ => false,
        };
        if idle && self.queue.len() > 0 {
            self.phase = SinkPhase::Writing;
            true
        } else {
            false
        }
    }

    /// The batch whose write is under way, if one is.
    pub fn in_flight(&self) -> (batch: Option<&Batch>)
        requires
            self.wf(),
        ensures
            match batch {
                Some(b) => self@.phase == SinkPhase::Writing && b@ == self@.queue.first(),
                None => self@.phase != SinkPhase::Writing,
            },
    {
        match self.phase {
            SinkPhase::Writing => self.next_batch(),
            _ => None,
        }
    }

    /// Takes note that the backoff has passed: the head batch may be
    /// written again.
    pub fn backoff_elapsed(&mut self)
        requires
            old(self).wf(),
        ensures
            final(self).wf(),
            final(self)@ == old(self)@.resume(),
    {
        match self.phase {
            SinkPhase::Waiting => {
                self.phase = SinkPhase::Idle;
            },
            _ => {},
        }
    }

    /// Takes note of how the write under way ended and decides what
    /// follows.
    ///
    /// A success commits the batch. An unavailable storage earns a retry
    /// after a growing delay while attempts are left; once they are used
    /// up, and on every other failure, the batch is dropped as a failed
    /// write. A committed or dropped batch leaves the line and the next one
    /// starts with a clean record. A result that comes in while no write is
    /// under way is ignored.
    pub fn on_result(&mut self, result: WriteResult) -> (outcome: SinkOutcome)
        requires
            old(self).wf(),
        ensures
            final(self).wf(),
            final(self)@ == old(self)@.settle(result),
            match outcome {
                SinkOutcome::Committed { batch, rows } => {
                    &&& old(self)@.verdict(result) == Verdict::Committed
                    &&& batch@ == old(self)@.queue.first()
                    &&& result == Ok::<usize, SinkError>(rows)
                },
                SinkOutcome::Retry { delay_ms } => {
                    &&& old(self)@.verdict(result) == Verdict::Retry
                    &&& delay_ms == capped(
                        backoff_ms(
                            old(self)@.policy.base_backoff_ms as nat,
                            old(self)@.failures + 1,
                        ),
                    )
                },
                SinkOutcome::Dropped { batch, error } => {
                    &&& old(self)@.verdict(result) == Verdict::Dropped
                    &&& batch@ == old(self)@.queue.first()
                    &&& error == SinkError::StorageWriteFailed
                },
                SinkOutcome::Nothing => old(self)@.verdict(result) == Verdict::Nothing,
            },
    {
        let writing = match self.phase {
            SinkPhase::Writing => true,
            _ => false,
        };
        if !writing || self.queue.len() == 0 {
            return SinkOutcome::Nothing;
        }
        let retry = match result {
            Err(SinkError::StorageUnavailable) => self.failures < self.policy.max_attempts
                && self.failures + 1 < self.policy.max_attempts,
            _ => false,
        };
        if retry {
            self.failures = self.failures + 1;
            self.phase = SinkPhase::Waiting;
            let delay_ms = self.policy.delay_ms(self.failures);
            SinkOutcome::Retry { delay_ms }
        } else {
            let head = self.queue.pop_front();
            self.failures = 0;
            self.phase = SinkPhase::Idle;
            assert(batch_views(self.queue@) =~= batch_views(old(self).queue@).drop_first());
            match head {
                Some(batch) => {
                    assert(batch@ == batch_views(old(self).queue@)[0]);
                    match result {
                        Ok(rows) => SinkOutcome::Committed { batch, rows },
                        Err(_) => SinkOutcome::Dropped {
                            batch,
                            error: SinkError::StorageWriteFailed,
                        },
                    }
                },
                None => SinkOutcome::Nothing,
            }
        }
    }

    /// The number of batches in line.
    pub fn backlog(&self) -> (n: usize)
        ensures
            n == self@.queue.len(),
    {
        self.queue.len()
    }

    /// The failed attempts on the head batch so far.
    pub fn failures(&self) -> (n: u32)
        ensures
            n == self@.failures,
    {
        self.failures
    }

    /// What the sink is doing with the head of its line.
    pub fn phase(&self) -> (phase: SinkPhase)
        ensures
            phase == self@.phase,
    {
        self.phase
    }

    /// The configured retry policy.
    pub fn policy(&self) -> (policy: RetryPolicy)
        ensures
            policy == self@.policy,
    {
        self.policy
    }
}

} // verus!

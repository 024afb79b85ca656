//! Sessions for the dashboard: collectors together with their events.

use crate::collector::Collector;
use crate::event::Event;
use vstd::prelude::*;

verus! {

/// How many of the latest collectors the dashboard looks at.
pub const SESSION_LIMIT: i64 = 30;

/// A collector and the events that belong to it.
#[derive(Debug)]
pub struct CollectorWithEvents {
    pub collector: Collector,
    pub events: Vec<Event>,
}

/// The sessions among the pairs from place `from` on: every collector whose
/// list of events is not empty, with that list, in order.
pub open spec fn sessions_from(
    collectors: Seq<Collector>,
    events: Seq<Vec<Event>>,
    from: int,
) -> Seq<CollectorWithEvents>
    decreases collectors.len() - from,
{
    if from < 0 || from >= collectors.len() || from >= events.len() {
        Seq::empty()
    } else if events[from]@.len() > 0 {
        seq![CollectorWithEvents { collector: collectors[from], events: events[from] }]
            + sessions_from(collectors, events, from + 1)
    } else {
        sessions_from(collectors, events, from + 1)
    }
}

/// The smaller of two lengths.
fn shorter(a: usize, b: usize) -> (m: usize)
    ensures
        m == if a <= b {
            a
        } else {
            b
        },
{
    if a <= b {
        a
    } else {
        b
    }
}

/// Pairs each collector with its list of events, place by place, and keeps
/// the pairs whose list is not empty, in order. Where one list is longer
/// than the other, what has no partner is left out.
pub fn sessions_with_events(collectors: Vec<Collector>, events: Vec<Vec<Event>>) -> (sessions: Vec<
    CollectorWithEvents,
>)
    ensures
        sessions@ == sessions_from(collectors@, events@, 0),
{
    let mut collectors = collectors;
    let mut events = events;
    let ghost all_collectors = collectors@;
    let ghost all_events = events@;
    let n = shorter(collectors.len(), events.len());
    collectors.truncate(n);
    events.truncate(n);
    let mut backwards: Vec<CollectorWithEvents> = Vec::new();
    let mut k: usize = n;
    proof {
        assert(sessions_from(all_collectors, all_events, n as int) =~= Seq::<
            CollectorWithEvents,
        >::empty());
        assert(backwards@.reverse() =~= Seq::<CollectorWithEvents>::empty());
    }
    while k > 0
        invariant
            0 <= k <= n,
            n <= all_collectors.len(),
            n <= all_events.len(),
            collectors@ == all_collectors.take(k as int),
            events@ == all_events.take(k as int),
            backwards@.reverse() == sessions_from(all_collectors, all_events, k as int),
        decreases k,
    {
        let collector = collectors.pop();
        let list = events.pop();
        let ghost before = backwards@;
        k = k - 1;
        proof {
            assert(collectors@ =~= all_collectors.take(k as int));
            assert(events@ =~= all_events.take(k as int));
        }
        match (collector, list) {
            (Some(collector), Some(list)) => {
                assert(collector == all_collectors[k as int]);
                assert(list == all_events[k as int]);
                if list.len() > 0 {
                    let session = CollectorWithEvents { collector, events: list };
                    backwards.push(session);
                    proof {
                        assert(backwards@.reverse() =~= seq![session] + before.reverse());
                    }
                }
            },
            _ => {},
        }
    }
    let mut sessions: Vec<CollectorWithEvents> = Vec::new();
    let ghost wanted = backwards@.reverse();
    proof {
        assert(sessions@ + backwards@.reverse() =~= wanted);
    }
    while backwards.len() > 0
        invariant
            sessions@ + backwards@.reverse() == wanted,
        decreases backwards.len(),
    {
        let ghost before = backwards@;
        let ghost done = sessions@;
        match backwards.pop() {
            Some(session) => {
                sessions.push(session);
                proof {
                    assert(before.reverse() =~= seq![session] + backwards@.reverse());
                    assert(sessions@ + backwards@.reverse() =~= done + before.reverse());
                }
            },
            None => {},
        }
    }
    proof {
        assert(backwards@.reverse() =~= Seq::<CollectorWithEvents>::empty());
        assert(sessions@ + Seq::<CollectorWithEvents>::empty() =~= sessions@);
    }
    sessions
}

} // verus!

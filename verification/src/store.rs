//! The event log: repetition counts, each recorded at a local instant, kept in
//! the order in which they were recorded, and their totals over ranges of time.

use vstd::prelude::*;
use crate::instant::LocalInstant;

verus! {

/// One recorded set: `reps` repetitions done at `at`. The `id` is the event's
/// place in the order of recording, counted from 1.
#[derive(Clone, Copy, Debug, PartialEq, Eq, Structural)]
pub struct Event {
    pub id: u64,
    pub reps: u32,
    pub at: LocalInstant,
}

/// The repetitions that `event` adds to the total of the range from `start`
/// up to, but not including, `end`.
pub open spec fn counted(event: Event, start: LocalInstant, end: LocalInstant) -> int {
    if event.at.at_or_after(start) && event.at.before(end) {
        event.reps as int
    } else {
        0
    }
}

/// The total of the repetitions of the events of `events` that lie in the
/// range from `start` up to, but not including, `end`.
pub open spec fn total_in(events: Seq<Event>, start: LocalInstant, end: LocalInstant) -> int
    decreases events.len(),
{
    if events.len() == 0 {
        0
    } else {
        total_in(events.drop_last(), start, end) + counted(events.last(), start, end)
    }
}

/// The total of a range is never negative and at most the largest count
/// times the number of events.
pub proof fn lemma_total_bounds(events: Seq<Event>, start: LocalInstant, end: LocalInstant)
    ensures
        0 <= total_in(events, start, end) <= events.len() * 0xffff_ffff,
    decreases events.len(),
{
    if events.len() > 0 {
        lemma_total_bounds(events.drop_last(), start, end);
    }
}

/// Each event's id is its place in the sequence: ids grow by one from 1, in
/// the order of recording.
pub open spec fn ids_in_order(events: Seq<Event>) -> bool {
    forall|i: int| 0 <= i < events.len() ==> (#[trigger] events[i]).id == i + 1
}

/// An append-only log of events.
pub struct EventLog {
    events: Vec<Event>,
}

impl EventLog {
    /// The events, in the order in which they were recorded.
    pub closed spec fn view(&self) -> Seq<Event> {
        self.events@
    }

    #[verifier::type_invariant]
    spec fn ids_in_place(self) -> bool {
        ids_in_order(self.events@)
    }

    /// A log without events.
    pub fn new() -> (log: EventLog)
        ensures
            log@ == Seq::<Event>::empty(),
    {
        EventLog { events: Vec::new() }
    }

    /// The number of events recorded, whose ids are in order.
    pub fn len(&self) -> (n: usize)
        ensures
            n == self@.len(),
            ids_in_order(self@),
    {
        proof {
            use_type_invariant(self);
        }
        self.events.len()
    }

    /// The event with the given id, if one was recorded under it.
    pub fn get(&self, id: u64) -> (r: Option<Event>)
        ensures
            r == if 1 <= id <= self@.len() {
                Some(self@[id - 1])
            } else {
                None::<Event>
            },
            r matches Some(event) ==> event.id == id,
    {
        proof {
            use_type_invariant(self);
        }
        if id < 1 || id > self.events.len() as u64 {
            return None;
        }
        Some(self.events[(id - 1) as usize])
    }

    /// Appends an event of `reps` repetitions at `at` and returns its id:
    /// the number of events then recorded, which is greater than every id
    /// given before. The events recorded before stay as they were.
    pub fn record(&mut self, reps: u32, at: LocalInstant) -> (id: u64)
        ensures
            id == old(self)@.len() + 1,
            final(self)@ == old(self)@.push((Event { id, reps, at })),
    {
        proof {
            use_type_invariant(&*self);
        }
        let mut events: Vec<Event> = Vec::new();
        std::mem::swap(&mut events, &mut self.events);
        // The id is the length after the push, which is known to fit.
        let place: usize = events.len();
        events.push(Event { id: 0, reps, at });
        let id: u64 = events.len() as u64;
        events.set(place, Event { id, reps, at });
        proof {
            assert(events@ == old(self)@.push(Event { id, reps, at }));
        }
        self.events = events;
        id
    }

    /// The total of the repetitions recorded at or after `start` and before
    /// `end`; 0 where there are none.
    pub fn sum_in_range(&self, start: LocalInstant, end: LocalInstant) -> (total: u128)
        ensures
            total == total_in(self@, start, end),
    {
        let mut total: u128 = 0;
        let mut i: usize = 0;
        while i < self.events.len()
            invariant
                i <= self.events.len(),
                total == total_in(self@.take(i as int), start, end),
            decreases self.events.len() - i,
        {
            let event = self.events[i];
            proof {
                assert(self@.take(i + 1).drop_last() == self@.take(i as int));
                lemma_total_bounds(self@.take(i + 1), start, end);
                assert(self@.take(i + 1).len() * 0xffff_ffff <= 0xffff_ffff_ffff_ffff
                    * 0xffff_ffff) by (nonlinear_arith)
                    requires
                        self@.take(i + 1).len() <= 0xffff_ffff_ffff_ffff,
                ;
            }
            if !event.at.is_before(&start) && event.at.is_before(&end) {
                total = total + event.reps as u128;
            }
            i = i + 1;
        }
        proof {
            assert(self@.take(i as int) == self@);
        }
        total
    }
}

/// The total that a summing query reports: the sum itself where it found
/// rows, 0 where it found none. Counts are never negative, so a negative sum
/// is no total and is refused.
pub fn reported_total(sum: Option<i64>) -> (total: Option<u64>)
    ensures
        sum is None ==> total == Some(0u64),
        sum matches Some(v) ==> (v >= 0 ==> total == Some(v as u64)) && (v < 0 ==> total is None),
{
    match sum {
        None => Some(0),
        Some(v) => if v < 0 {
            None
        } else {
            Some(v as u64)
        },
    }
}

} // verus!

//! What holds of a mutex however its waiters and guards are scheduled.
//!
//! A scheduler resumes pending lock operations and gives guards back in any
//! order it likes. A schedule is the sequence of these events, and the
//! mutex after the schedule is [`MutexView::run`] of it.

use crate::sync::mutex::{GuardView, MutexView, Waiter};
use vstd::prelude::*;

verus! {

/// One event that a scheduler causes on a mutex.
pub enum Event<T> {
    /// A pending lock operation is resumed once.
    Resume { waiter: Waiter },
    /// One attempt is made to give a guard back.
    Release { guard: GuardView<T> },
}

impl<T> MutexView<T> {
    /// The mutex after `event`.
    pub open spec fn step(self, event: Event<T>) -> Self {
        match event {
            Event::Resume { waiter } => self.resume(waiter),
            Event::Release { guard } => self.release(guard),
        }
    }

    /// The mutex after the events of `schedule` happened in order.
    pub open spec fn run(self, schedule: Seq<Event<T>>) -> Self
        decreases schedule.len(),
    {
        if schedule.len() == 0 {
            self
        } else {
            self.run(schedule.drop_last()).step(schedule.last())
        }
    }

    /// The tickets drawn during `schedule`, in the order of the draws.
    pub open spec fn drawn_tickets(self, schedule: Seq<Event<T>>) -> Seq<nat>
        decreases schedule.len(),
    {
        if schedule.len() == 0 {
            Seq::empty()
        } else {
            let before = self.run(schedule.drop_last());
            let earlier = self.drawn_tickets(schedule.drop_last());
            match schedule.last() {
                Event::Resume { waiter } if before.draws(waiter) => earlier.push(before.next),
                _ => earlier,
            }
        }
    }

    /// The tickets on which guards were granted during `schedule`, in the
    /// order of the grants.
    pub open spec fn granted_tickets(self, schedule: Seq<Event<T>>) -> Seq<nat>
        decreases schedule.len(),
    {
        if schedule.len() == 0 {
            Seq::empty()
        } else {
            let before = self.run(schedule.drop_last());
            let earlier = self.granted_tickets(schedule.drop_last());
            match schedule.last() {
                Event::Resume { waiter } if before.grants(waiter) => earlier.push(
                    before.ticket(waiter)->0,
                ),
                _ => earlier,
            }
        }
    }

    /// Number of guards that were given back during `schedule`.
    pub open spec fn released(self, schedule: Seq<Event<T>>) -> nat
        decreases schedule.len(),
    {
        if schedule.len() == 0 {
            0
        } else {
            let before = self.run(schedule.drop_last());
            let earlier = self.released(schedule.drop_last());
            match schedule.last() {
                Event::Release { guard } if before.accepts(guard) => earlier + 1,
                _ => earlier,
            }
        }
    }

    /// Tickets are drawn without gap or repetition: whatever the schedule,
    /// the draws yield the consecutive numbers from the first free ticket on.
    pub proof fn lemma_tickets_are_consecutive(self, schedule: Seq<Event<T>>)
        ensures
            self.run(schedule).next == self.next + self.drawn_tickets(schedule).len(),
            forall|i: int|
                0 <= i < self.drawn_tickets(schedule).len() ==> #[trigger] self.drawn_tickets(
                    schedule,
                )[i] == self.next + i,
        decreases schedule.len(),
    {
        if schedule.len() > 0 {
            self.lemma_tickets_are_consecutive(schedule.drop_last());
        }
    }

    /// Guards are granted in ticket order: whatever the schedule, a guard
    /// that is granted later is granted on a greater ticket, and none is
    /// granted on a ticket that was served before the schedule began.
    pub proof fn lemma_served_in_ticket_order(self, schedule: Seq<Event<T>>)
        requires
            self.wf(),
        ensures
            self.run(schedule).wf(),
            self.holder <= self.run(schedule).holder,
            forall|i: int, j: int|
                0 <= i < j < self.granted_tickets(schedule).len() ==> self.granted_tickets(
                    schedule,
                )[i] < self.granted_tickets(schedule)[j],
            forall|i: int|
                0 <= i < self.granted_tickets(schedule).len() ==> self.holder
                    <= #[trigger] self.granted_tickets(schedule)[i] <= self.run(schedule).holder,
            forall|i: int|
                0 <= i < self.granted_tickets(schedule).len() && self.run(schedule).value is Some
                    ==> #[trigger] self.granted_tickets(schedule)[i] < self.run(schedule).holder,
        decreases schedule.len(),
    {
        if schedule.len() > 0 {
            self.lemma_served_in_ticket_order(schedule.drop_last());
            let before = self.run(schedule.drop_last());
            let earlier = self.granted_tickets(schedule.drop_last());
            let granted = self.granted_tickets(schedule);
            let after = self.run(schedule);
            assert(before.holder <= after.holder);
            assert forall|i: int| 0 <= i < granted.len() implies self.holder <= #[trigger] granted[i]
                <= after.holder && (after.value is Some ==> granted[i] < after.holder) by {
                if i < earlier.len() {
                    assert(granted[i] == earlier[i]);
                }
            }
            assert forall|i: int, j: int| 0 <= i < j < granted.len() implies granted[i]
                < granted[j] by {
                if j < earlier.len() {
                    assert(granted[i] == earlier[i]);
                    assert(granted[j] == earlier[j]);
                } else {
                    assert(granted[i] == earlier[i]);
                }
            }
        }
    }

    /// At most one guard is out at any time: whatever the schedule on a
    /// mutex that holds its value, the guards granted are as many as the
    /// guards given back, plus the one that is out while the value is gone.
    pub proof fn lemma_one_guard_at_a_time(self, schedule: Seq<Event<T>>)
        requires
            self.value is Some,
        ensures
            self.granted_tickets(schedule).len() == self.released(schedule) + (if self.run(
                schedule,
            ).value is None {
                1nat
            } else {
                0nat
            }),
        decreases schedule.len(),
    {
        if schedule.len() > 0 {
            self.lemma_one_guard_at_a_time(schedule.drop_last());
        }
    }

    /// The value is handed on without loss: a guard that is granted carries
    /// the value that the mutex held, and a guard that is given back leaves
    /// its value to the next grant.
    pub proof fn lemma_value_is_handed_on(self, guard: GuardView<T>, waiter: Waiter)
        requires
            self.accepts(guard),
            self.release(guard).grants(waiter),
        ensures
            self.release(guard).value == Some(guard.value),
            self.release(guard).resume(waiter).value is None,
            self.release(guard).ticket(waiter) == Some(guard.token + 1),
    {
    }
}

} // verus!

//! What holds of a stack however the resumptions of its pending operations
//! are interleaved, and how its buffer grows.
//!
//! A scheduler resumes pending pushes and pops in any order it likes. Each
//! resumption is one [`Attempt`] against the stack as it then is, so a
//! schedule is a sequence of attempts, and the stack after the schedule is
//! [`StackView::run`] of it.

use crate::collections::stack::{grown, Attempt, StackView};
use crate::collections::state::MAX_LENGTH;
use vstd::prelude::*;

verus! {

impl<T> StackView<T> {
    /// The stack after the attempts of `schedule` were made in order.
    pub open spec fn run(self, schedule: Seq<Attempt<T>>) -> Self
        decreases schedule.len(),
    {
        if schedule.len() == 0 {
            self
        } else {
            self.run(schedule.drop_last()).resume(schedule.last())
        }
    }

    /// Number of pushes that completed during `schedule`.
    pub open spec fn pushed(self, schedule: Seq<Attempt<T>>) -> nat
        decreases schedule.len(),
    {
        if schedule.len() == 0 {
            0
        } else {
            let before = self.run(schedule.drop_last());
            let earlier = self.pushed(schedule.drop_last());
            if schedule.last() is Push && before.admits(schedule.last()) {
                earlier + 1
            } else {
                earlier
            }
        }
    }

    /// Number of pops that completed during `schedule` and yielded an item.
    pub open spec fn popped(self, schedule: Seq<Attempt<T>>) -> nat
        decreases schedule.len(),
    {
        if schedule.len() == 0 {
            0
        } else {
            let before = self.run(schedule.drop_last());
            let earlier = self.popped(schedule.drop_last());
            if schedule.last() is Pop && before.admits(schedule.last()) && before.top() is Some {
                earlier + 1
            } else {
                earlier
            }
        }
    }

    /// The stack after the items of `items` were pushed in order.
    pub open spec fn push_all(self, items: Seq<T>) -> Self
        decreases items.len(),
    {
        if items.len() == 0 {
            self
        } else {
            self.push_all(items.drop_last()).push(items.last())
        }
    }

    /// No item is lost or made up: whatever the schedule, the items that
    /// remain and the items that pops yielded are as many as the items that
    /// were there and the items that pushes stored.
    pub proof fn lemma_items_are_conserved(self, schedule: Seq<Attempt<T>>)
        ensures
            self.run(schedule).items.len() + self.popped(schedule) == self.items.len()
                + self.pushed(schedule),
        decreases schedule.len(),
    {
        if schedule.len() > 0 {
            self.lemma_items_are_conserved(schedule.drop_last());
        }
    }

    /// A schedule keeps a well-formed stack well-formed, as long as no push
    /// is attempted on the expectation of a stack that is full at the
    /// maximum length.
    pub proof fn lemma_run_is_well_formed(self, schedule: Seq<Attempt<T>>)
        requires
            self.wf(),
            forall|i: int|
                0 <= i < schedule.len() && schedule[i] is Push ==> (
                #[trigger] schedule[i]).expected().length < MAX_LENGTH,
        ensures
            self.run(schedule).wf(),
        decreases schedule.len(),
    {
        if schedule.len() > 0 {
            self.lemma_run_is_well_formed(schedule.drop_last());
        }
    }

    /// A failed attempt that is resumed again before anything else happens
    /// succeeds: it then expects exactly what it found.
    pub proof fn lemma_second_attempt_is_admitted(self, attempt: Attempt<T>)
        ensures
            self.admits(attempt.expecting(self.state())),
    {
    }

    /// A push followed at once by a pop yields the pushed item and leaves the
    /// items as they were before the push.
    pub proof fn lemma_push_then_pop(self, item: T)
        ensures
            self.push(item).top() == Some(item),
            self.push(item).pop().items == self.items,
            self.push(item).pop().items.len() == self.items.len(),
    {
        assert(self.items.push(item).drop_last() =~= self.items);
    }

    /// Popping an empty stack yields nothing and changes nothing, so the
    /// length stays zero.
    pub proof fn lemma_pop_of_empty(self)
        requires
            self.items.len() == 0,
        ensures
            self.top() is None,
            self.pop() == self,
            self.pop().items.len() == 0,
    {
    }

    /// One push changes the capacity only when the buffer is full, and then
    /// from none to one slot or to exactly twice as many, as long as twice as
    /// many stays within the maximum.
    pub proof fn lemma_push_grows_by_doubling(self, item: T)
        requires
            self.wf(),
            self.items.len() < MAX_LENGTH,
        ensures
            self.push(item).wf(),
            self.items.len() < self.capacity ==> self.push(item).capacity == self.capacity,
            self.items.len() == self.capacity && self.capacity == 0 ==> self.push(item).capacity
                == 1,
            self.items.len() == self.capacity && 0 < 2 * self.capacity <= MAX_LENGTH
                ==> self.push(item).capacity == 2 * self.capacity,
            self.items.len() == self.capacity && 2 * self.capacity > MAX_LENGTH ==> self.push(
                item,
            ).capacity == MAX_LENGTH,
    {
    }

    /// Pushing `items` onto an empty stack without a buffer stores them in
    /// order, in a buffer that holds them all: a buffer of no slots for no
    /// items, else of the one power of two that is at least the number of
    /// items and less than twice that number, or of the maximum capacity
    /// where that power of two would exceed it.
    pub proof fn lemma_capacity_after_pushes(items: Seq<T>)
        requires
            items.len() <= MAX_LENGTH,
        ensures
            Self::empty(0).push_all(items).items == items,
            Self::empty(0).push_all(items).capacity == capacity_for(items.len()),
            Self::empty(0).push_all(items).capacity >= items.len(),
            items.len() == 0 ==> Self::empty(0).push_all(items).capacity == 0,
            0 < items.len() <= 0x4000_0000 ==> is_power_of_two(
                Self::empty(0).push_all(items).capacity,
            ) && Self::empty(0).push_all(items).capacity < 2 * items.len(),
            items.len() > 0x4000_0000 ==> Self::empty(0).push_all(items).capacity == MAX_LENGTH,
        decreases items.len(),
    {
        lemma_capacity_for(items.len());
        if items.len() > 0 {
            let earlier = items.drop_last();
            Self::lemma_capacity_after_pushes(earlier);
            assert(earlier.push(items.last()) =~= items);
        }
    }
}

/// `n` is a power of two.
pub open spec fn is_power_of_two(n: nat) -> bool
    decreases n,
{
    n == 1 || (n > 1 && n % 2 == 0 && is_power_of_two(n / 2))
}

/// Capacity that `count` pushes onto an empty stack without a buffer lead
/// to: each growth doubles the capacity that the previous one left.
pub open spec fn capacity_for(count: nat) -> nat
    decreases count,
{
    if count == 0 {
        0
    } else {
        let before = capacity_for((count - 1) as nat);
        if count - 1 < before {
            before
        } else {
            grown(before)
        }
    }
}

/// The capacity that `count` pushes lead to holds them all, and is pinned
/// down by it: none for no push, the maximum beyond `2^30` pushes, and else
/// the power of two in `count .. 2 * count`.
pub proof fn lemma_capacity_for(count: nat)
    requires
        count <= MAX_LENGTH,
    ensures
        capacity_for(count) >= count,
        capacity_for(count) <= MAX_LENGTH,
        count == 0 ==> capacity_for(count) == 0,
        0 < count <= 0x4000_0000 ==> is_power_of_two(capacity_for(count)) && capacity_for(count)
            < 2 * count,
        count > 0x4000_0000 ==> capacity_for(count) == MAX_LENGTH,
    decreases count,
{
    if count > 0 {
        let before = capacity_for((count - 1) as nat);
        lemma_capacity_for((count - 1) as nat);
        if count - 1 >= before && before > 0 && 2 * before <= MAX_LENGTH {
            assert(is_power_of_two(2 * before)) by {
                assert((2 * before) / 2 == before);
            }
        }
        if count - 1 == 0x4000_0000 {
            assert(is_power_of_two(0x4000_0000)) by {
                reveal_with_fuel(is_power_of_two, 31);
            }
            lemma_power_of_two_between(before, 0x4000_0000);
        }
    }
}

/// Between a power of two and its double there is no other power of two.
proof fn lemma_power_of_two_between(n: nat, low: nat)
    requires
        is_power_of_two(n),
        is_power_of_two(low),
        low <= n < 2 * low,
    ensures
        n == low,
    decreases low,
{
    if low > 1 {
        lemma_power_of_two_between(n / 2, low / 2);
    }
}

} // verus!

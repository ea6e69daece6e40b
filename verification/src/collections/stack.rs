//! A growable stack guarded by the lock bit of its packed state word.
//!
//! Every mutating operation follows acquire, mutate, release: one
//! compare-and-swap sets the lock bit, the buffer is changed, a second
//! compare-and-swap clears the bit and publishes the new sizes.
//!
//! The stack owns its word. A resumption borrows the stack exclusively, so
//! nothing else runs between its acquire and its release: the release is
//! proved to find the word as the acquire left it, and between resumptions
//! the word is unlocked. Contention shows as a failed acquire: an operation
//! whose expectation is stale stays pending, learns the state it found, and
//! is resumed again. A pending operation that is dropped leaves the stack
//! as it is.

use crate::collections::state::{StackState, MAX_LENGTH};
use crate::sync::cell::compare_exchange;
use crate::task::Step;
use vstd::prelude::*;

verus! {

/// Capacity after growing a full buffer of `capacity` slots: one slot for an
/// unallocated buffer, otherwise twice as many, capped at the maximum.
pub open spec fn grown(capacity: nat) -> nat {
    if capacity == 0 {
        1
    } else if 2 * capacity <= MAX_LENGTH {
        2 * capacity
    } else {
        MAX_LENGTH as nat
    }
}

/// What a stack is, to its callers: the stored items, oldest first, and the
/// number of slots its buffer has.
#[verifier::ext_equal]
pub struct StackView<T> {
    pub items: Seq<T>,
    pub capacity: nat,
}

impl<T> StackView<T> {
    /// The fields that the packed word of an unlocked stack holds.
    pub open spec fn state(self) -> StackState {
        StackState {
            capacity: self.capacity as u32,
            length: self.items.len() as u32,
            locked: false,
        }
    }

    /// The items fit the buffer, and the buffer fits the word.
    pub open spec fn wf(self) -> bool {
        self.items.len() <= self.capacity <= MAX_LENGTH
    }

    /// The stack with no items and `capacity` slots.
    pub open spec fn empty(capacity: nat) -> Self {
        StackView { items: Seq::empty(), capacity }
    }

    /// The stack after `item` was pushed: the buffer grows only when full.
    pub open spec fn push(self, item: T) -> Self {
        StackView {
            items: self.items.push(item),
            capacity: if self.items.len() < self.capacity {
                self.capacity
            } else {
                grown(self.capacity)
            },
        }
    }

    /// What a pop yields: the newest item, or nothing from an empty stack.
    pub open spec fn top(self) -> Option<T> {
        if self.items.len() == 0 {
            None
        } else {
            Some(self.items.last())
        }
    }

    /// The stack after a pop: the newest item is gone, the buffer stays.
    pub open spec fn pop(self) -> Self {
        StackView {
            items: if self.items.len() == 0 {
                self.items
            } else {
                self.items.drop_last()
            },
            capacity: self.capacity,
        }
    }
}

/// A pending operation as one resumption sees it: what it will do, and the
/// state it expects to find in the packed word.
pub enum Attempt<T> {
    Push { expected: StackState, item: T },
    Pop { expected: StackState },
}

impl<T> Attempt<T> {
    /// The state that the attempt's compare-and-swap expects.
    pub open spec fn expected(self) -> StackState {
        match self {
            Attempt::Push { expected, .. } => expected,
            Attempt::Pop { expected } => expected,
        }
    }

    /// The same operation, expecting `state` instead.
    pub open spec fn expecting(self, state: StackState) -> Self {
        match self {
            Attempt::Push { item, .. } => Attempt::Push { expected: state, item },
            Attempt::Pop { .. } => Attempt::Pop { expected: state },
        }
    }
}

impl<T> StackView<T> {
    /// The attempt's compare-and-swap succeeds: it expects the current state.
    pub open spec fn admits(self, attempt: Attempt<T>) -> bool {
        attempt.expected() == self.state()
    }

    /// The stack after one resumption of `attempt`: the whole operation when
    /// its compare-and-swap succeeds, no change when it fails.
    pub open spec fn resume(self, attempt: Attempt<T>) -> Self {
        if self.admits(attempt) {
            match attempt {
                Attempt::Push { item, .. } => self.push(item),
                Attempt::Pop { .. } => self.pop(),
            }
        } else {
            self
        }
    }
}

/// A growable stack. Its length, capacity and lock flag are one packed word.
#[derive(Debug)]
pub struct Stack<T> {
    state: u64,
    buf: Vec<T>,
}

impl<T> View for Stack<T> {
    type V = StackView<T>;

    closed spec fn view(&self) -> StackView<T> {
        shape(self.state, self.buf@)
    }
}

impl<T> Stack<T> {
    /// Between operations the word is unlocked and describes the buffer.
    #[verifier::type_invariant]
    spec fn inv(self) -> bool {
        held(self.state, self.buf@)
    }

    /// Creates an empty stack that has no buffer yet.
    pub fn new() -> (stack: Self)
        ensures
            stack@ == StackView::<T>::empty(0),
            stack@.wf(),
    {
        Self::with_capacity(0)
    }

    /// Decodes the packed word.
    pub fn get_state(&self) -> (state: StackState)
        ensures
            state == self@.state(),
            self@.wf(),
    {
        proof {
            use_type_invariant(self);
        }
        StackState::decode(self.state)
    }

    /// Number of stored items.
    pub fn length(&self) -> (length: u32)
        ensures
            length == self@.items.len(),
            self@.wf(),
    {
        self.get_state().length
    }

    /// Number of slots in the buffer.
    pub fn capacity(&self) -> (capacity: u32)
        ensures
            capacity == self@.capacity,
            self@.wf(),
    {
        self.get_state().capacity
    }

    /// Creates an empty stack with a buffer of `capacity` slots.
    pub fn with_capacity(capacity: usize) -> (stack: Self)
        requires
            capacity <= MAX_LENGTH,
        ensures
            stack@ == StackView::<T>::empty(capacity as nat),
            stack@.wf(),
    {
        let state = StackState { capacity: capacity as u32, length: 0, locked: false };
        Stack { state: state.encode(), buf: Vec::with_capacity(capacity) }
    }
}

/// A push that has not completed: the item, and the state that its next
/// compare-and-swap expects.
#[derive(Debug)]
pub struct PendingPush<T> {
    expected: StackState,
    item: T,
}

impl<T> View for PendingPush<T> {
    type V = Attempt<T>;

    closed spec fn view(&self) -> Attempt<T> {
        Attempt::Push { expected: self.expected, item: self.item }
    }
}

impl<T> PendingPush<T> {
    /// The expected state is one that an unlocked word can hold.
    #[verifier::type_invariant]
    spec fn inv(self) -> bool {
        self.expected.valid() && !self.expected.locked
    }

    /// Starts a push of `item`. It expects an empty stack without a buffer.
    pub fn new(item: T) -> (op: Self)
        ensures
            op@ == (Attempt::Push {
                expected: StackState { capacity: 0, length: 0, locked: false },
                item,
            }),
    {
        PendingPush { expected: StackState::default(), item }
    }

    /// The state that the next attempt expects.
    pub fn expected(&self) -> (state: StackState)
        ensures
            state == self@.expected(),
            state.valid(),
            !state.locked,
            self@ is Push,
    {
        proof {
            use_type_invariant(self);
        }
        self.expected
    }
}

impl<T> Stack<T> {
    /// Resumes a pending push once.
    ///
    /// One compare-and-swap tries to lock the word and reserve the next
    /// index. If the word is not as expected the push stays pending and now
    /// expects what was found. Otherwise the buffer grows if it is full, the
    /// item is stored at the reserved index, and the word is unlocked.
    pub fn poll_push(&mut self, op: PendingPush<T>) -> (step: Step<(), PendingPush<T>>)
        requires
            op@.expected().length < MAX_LENGTH,
        ensures
            final(self)@ == old(self)@.resume(op@),
            old(self)@.wf(),
            final(self)@.wf(),
            old(self)@.admits(op@) ==> step is Ready,
            !old(self)@.admits(op@) ==> step is Pending && step->Pending_0@ == op@.expecting(
                old(self)@.state(),
            ),
    {
        proof {
            use_type_invariant(&*self);
            use_type_invariant(&op);
        }
        let PendingPush { expected, item } = op;
        let (mut state, mut buf) = self.take_apart();
        let step = push_step(&mut state, &mut buf, expected, item);
        *self = Stack { state, buf };
        match step {
            Ok(()) => Step::Ready(()),
            Err((observed, item)) => Step::Pending(PendingPush { expected: observed, item }),
        }
    }

    /// Moves the word and the buffer out, leaving an empty stack behind.
    ///
    /// While the word is locked it does not describe the buffer, so an
    /// operation works on the two parts and puts the stack together again
    /// once the word is unlocked.
    fn take_apart(&mut self) -> (parts: (u64, Vec<T>))
        ensures
            held(parts.0, parts.1@),
            shape(parts.0, parts.1@) == old(self)@,
            old(self)@.wf(),
    {
        proof {
            use_type_invariant(&*self);
        }
        let mut taken = Stack::new();
        std::mem::swap(self, &mut taken);
        let Stack { state, buf } = taken;
        (state, buf)
    }

    /// Pushes `item`: resumes the push until it completes.
    ///
    /// The borrow is exclusive, so the second attempt at the latest finds the
    /// word as expected.
    pub fn push(&mut self, item: T)
        requires
            old(self)@.items.len() < MAX_LENGTH,
        ensures
            final(self)@ == old(self)@.push(item),
            final(self)@.wf(),
    {
        proof {
            use_type_invariant(&*self);
        }
        let mut op = PendingPush::new(item);
        loop
            invariant
                self@ == old(self)@,
                self@.wf(),
                self@.items.len() < MAX_LENGTH,
                op@ is Push,
                op@->Push_item == item,
                op@.expected().length < MAX_LENGTH,
            decreases
                (if self@.admits(op@) { 0int } else { 1int }),
        {
            match self.poll_push(op) {
                Step::Ready(()) => {
                    return ;
                },
                Step::Pending(pending) => {
                    op = pending;
                },
            }
        }
    }
}

/// A pop that has not completed: the state that its next compare-and-swap
/// expects.
#[derive(Debug)]
pub struct PendingPop {
    expected: StackState,
}

impl View for PendingPop {
    type V = StackState;

    closed spec fn view(&self) -> StackState {
        self.expected
    }
}

impl PendingPop {
    /// The expected state is one that an unlocked word can hold.
    #[verifier::type_invariant]
    spec fn inv(self) -> bool {
        self.expected.valid() && !self.expected.locked
    }

    /// The pop as a resumption of a stack of `T` sees it.
    pub open spec fn attempt<T>(self) -> Attempt<T> {
        Attempt::Pop { expected: self@ }
    }

    /// Starts a pop. It expects an empty stack without a buffer.
    pub fn new() -> (op: Self)
        ensures
            op@ == (StackState { capacity: 0, length: 0, locked: false }),
    {
        PendingPop { expected: StackState::default() }
    }

    /// The state that the next attempt expects.
    pub fn expected(&self) -> (state: StackState)
        ensures
            state == self@,
            state.valid(),
            !state.locked,
    {
        proof {
            use_type_invariant(self);
        }
        self.expected
    }
}

impl<T> Stack<T> {
    /// Resumes a pending pop once.
    ///
    /// One compare-and-swap tries to lock the word. If the word is not as
    /// expected the pop stays pending and now expects what was found.
    /// Otherwise the newest item, if there is one, is moved out of the
    /// buffer, and the word is unlocked with the length that remains.
    pub fn poll_pop(&mut self, op: PendingPop) -> (step: Step<Option<T>, PendingPop>)
        ensures
            final(self)@ == old(self)@.resume(op.attempt()),
            old(self)@.wf(),
            final(self)@.wf(),
            old(self)@.admits(op.attempt()) ==> step == Step::<Option<T>, PendingPop>::Ready(
                old(self)@.top(),
            ),
            !old(self)@.admits(op.attempt()) ==> step is Pending && step->Pending_0@ == old(
                self,
            )@.state(),
    {
        proof {
            use_type_invariant(&*self);
            use_type_invariant(&op);
        }
        let (mut state, mut buf) = self.take_apart();
        let step = pop_step(&mut state, &mut buf, op.expected);
        *self = Stack { state, buf };
        match step {
            Ok(item) => Step::Ready(item),
            Err(observed) => Step::Pending(PendingPop { expected: observed }),
        }
    }

    /// Pops the newest item: resumes the pop until it completes.
    ///
    /// Returns `None`, and changes nothing, when the stack is empty.
    pub fn pop(&mut self) -> (item: Option<T>)
        ensures
            item == old(self)@.top(),
            final(self)@ == old(self)@.pop(),
            final(self)@.wf(),
    {
        let mut op = PendingPop::new();
        loop
            invariant
                self@ == old(self)@,
            decreases
                (if self@.admits(op.attempt()) { 0int } else { 1int }),
        {
            match self.poll_pop(op) {
                Step::Ready(item) => {
                    return item;
                },
                Step::Pending(pending) => {
                    op = pending;
                },
            }
        }
    }
}

impl<T: Clone> Clone for Stack<T> {
    /// Copies the stack item by item into a buffer of exactly as many slots
    /// as there are items.
    ///
    /// A shared borrow excludes every resumption of a push or a pop, so the
    /// word is unlocked and stays so while the items are copied.
    fn clone(&self) -> (copy: Self)
        ensures
            copy@.wf(),
            copy@.capacity == self@.items.len(),
            copy@.items.len() == self@.items.len(),
            forall|i: int|
                0 <= i < self@.items.len() ==> cloned::<T>(
                    #[trigger] self@.items[i],
                    copy@.items[i],
                ),
    {
        proof {
            use_type_invariant(self);
        }
        let source = self.get_state();
        let length: usize = source.length as usize;
        let mut buf: Vec<T> = Vec::with_capacity(length);
        let mut index: usize = 0;
        while index < length
            invariant
                index <= length,
                length == self.buf@.len(),
                buf@.len() == index,
                forall|i: int| 0 <= i < index ==> cloned::<T>(#[trigger] self.buf@[i], buf@[i]),
            decreases length - index,
        {
            buf.push(self.buf[index].clone());
            index += 1;
        }
        let state = StackState { capacity: source.length, length: source.length, locked: false };
        Stack { state: state.encode(), buf }
    }
}

impl<T> Default for Stack<T> {
    /// An empty stack that has no buffer yet.
    fn default() -> (stack: Self)
        ensures
            stack@ == StackView::<T>::empty(0),
    {
        Self::new()
    }
}

/// Capacity of the buffer that replaces a full one of `capacity` slots.
pub fn grow(capacity: u32) -> (grown: u32)
    requires
        capacity < MAX_LENGTH,
    ensures
        grown == self::grown(capacity as nat),
        capacity < grown <= MAX_LENGTH,
{
    if capacity == 0 {
        1
    } else if capacity <= 0x3fff_ffff {
        capacity * 2
    } else {
        0x7fff_ffff
    }
}

/// One resumption of a push, on the word and the buffer of a stack.
fn push_step<T>(state: &mut u64, buf: &mut Vec<T>, expected: StackState, item: T) -> (step: Result<
    (),
    (StackState, T),
>)
    requires
        held(*old(state), old(buf)@),
        expected.valid(),
        !expected.locked,
        expected.length < MAX_LENGTH,
    ensures
        held(*final(state), final(buf)@),
        shape(*final(state), final(buf)@) == shape(*old(state), old(buf)@).resume(
            Attempt::Push { expected, item },
        ),
        expected == shape(*old(state), old(buf)@).state() ==> step is Ok,
        expected != shape(*old(state), old(buf)@).state() ==> step == Err::<(), (StackState, T)>(
            (shape(*old(state), old(buf)@).state(), item),
        ),
{
    proof {
        StackState::lemma_fields_round_trip(*state);
    }
    let desired_new = StackState {
        capacity: expected.capacity,
        length: expected.length + 1,
        locked: true,
    };
    match compare_exchange(state, expected.encode(), desired_new.encode()) {
        Err(found) => {
            let observed = StackState::decode(found);
            Err((
                StackState { capacity: observed.capacity, length: observed.length, locked: false },
                item,
            ))
        },
        Ok(previous) => {
            let locked_state = StackState::decode(previous);
            let index: u32 = locked_state.length;
            let mut capacity: u32 = locked_state.capacity;
            if capacity <= index {
                capacity = grow(capacity);
                buf.reserve((capacity - index) as usize);
            }
            buf.push(item);
            let desired_old = StackState {
                capacity: locked_state.capacity,
                length: index + 1,
                locked: true,
            };
            let desired_new = StackState { capacity, length: index + 1, locked: false };
            match compare_exchange(state, desired_old.encode(), desired_new.encode()) {
                Ok(_) => Ok(()),
                Err(_) => unreached(),
            }
        },
    }
}

/// One resumption of a pop, on the word and the buffer of a stack.
fn pop_step<T>(state: &mut u64, buf: &mut Vec<T>, expected: StackState) -> (step: Result<
    Option<T>,
    StackState,
>)
    requires
        held(*old(state), old(buf)@),
        expected.valid(),
        !expected.locked,
    ensures
        held(*final(state), final(buf)@),
        shape(*final(state), final(buf)@) == shape(*old(state), old(buf)@).resume(
            Attempt::Pop { expected },
        ),
        expected == shape(*old(state), old(buf)@).state() ==> step == Ok::<Option<T>, StackState>(
            shape(*old(state), old(buf)@).top(),
        ),
        expected != shape(*old(state), old(buf)@).state() ==> step == Err::<Option<T>, StackState>(
            shape(*old(state), old(buf)@).state(),
        ),
{
    proof {
        StackState::lemma_fields_round_trip(*state);
    }
    let desired_new = StackState {
        capacity: expected.capacity,
        length: expected.length,
        locked: true,
    };
    match compare_exchange(state, expected.encode(), desired_new.encode()) {
        Err(found) => {
            let observed = StackState::decode(found);
            Err(StackState { capacity: observed.capacity, length: observed.length, locked: false })
        },
        Ok(previous) => {
            let locked_state = StackState::decode(previous);
            let mut index: u32 = 0;
            let mut item: Option<T> = None;
            if locked_state.length != 0 {
                index = locked_state.length - 1;
                item = buf.pop();
            }
            let desired_old = StackState {
                capacity: locked_state.capacity,
                length: locked_state.length,
                locked: true,
            };
            let desired_new = StackState {
                capacity: locked_state.capacity,
                length: index,
                locked: false,
            };
            match compare_exchange(state, desired_old.encode(), desired_new.encode()) {
                Ok(_) => Ok(item),
                Err(_) => unreached(),
            }
        },
    }
}

/// The view of a stack whose packed word is `word` and whose buffer holds
/// `items`.
spec fn shape<T>(word: u64, items: Seq<T>) -> StackView<T> {
    StackView { items, capacity: StackState::of_word(word).capacity as nat }
}

/// The word is unlocked, and its sizes are those of a buffer holding `items`.
spec fn held<T>(word: u64, items: Seq<T>) -> bool {
    &&& StackState::decodable(word)
    &&& !StackState::of_word(word).locked
    &&& StackState::of_word(word).length == items.len()
    &&& StackState::of_word(word).length <= StackState::of_word(word).capacity
}

} // verus!

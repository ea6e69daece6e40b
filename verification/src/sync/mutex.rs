//! A fair mutex: tickets are handed out in order and served in order.
//!
//! Two counters make the lock. `next` is the ticket that the next arrival
//! draws, `holder` is the ticket being served. A waiter whose ticket is
//! being served receives a guard that owns the protected value; giving the
//! guard back returns the value and serves the following ticket.
//!
//! The guard owns the value while it is out, so no second guard can reach
//! it. A waiter that has drawn a ticket and is never resumed again, and a
//! guard that is never given back, keep every later ticket waiting.

use crate::sync::cell::compare_exchange_usize;
use crate::task::Step;
use vstd::prelude::*;

verus! {

/// What a mutex is, to its callers: the two counters, and the protected
/// value while no guard has it.
#[verifier::ext_equal]
pub struct MutexView<T> {
    pub holder: nat,
    pub next: nat,
    pub value: Option<T>,
}

/// A pending lock operation as one resumption sees it.
pub enum Waiter {
    /// No ticket yet: the next attempt expects `next` to be `guess`.
    Drawing { guess: nat },
    /// Holds `ticket` and waits for it to be served.
    Queued { ticket: nat },
}

/// What a guard is: the ticket it was granted on, and the protected value.
pub struct GuardView<T> {
    pub token: nat,
    pub value: T,
}

impl<T> MutexView<T> {
    /// No ticket is served before it is drawn, and while a guard is out the
    /// ticket being served is one that was drawn.
    pub open spec fn wf(self) -> bool {
        &&& self.holder <= self.next
        &&& self.value is None ==> self.holder < self.next
    }

    /// The waiter's attempt to draw a ticket succeeds.
    pub open spec fn draws(self, waiter: Waiter) -> bool {
        waiter matches Waiter::Drawing { guess } && guess == self.next
    }

    /// The mutex after the waiter's attempt to draw a ticket, if it makes one.
    pub open spec fn drawn(self, waiter: Waiter) -> Self {
        if self.draws(waiter) {
            MutexView { next: self.next + 1, ..self }
        } else {
            self
        }
    }

    /// The ticket that the waiter holds once its attempt to draw is made.
    pub open spec fn ticket(self, waiter: Waiter) -> Option<nat> {
        match waiter {
            Waiter::Drawing { guess } => if guess == self.next {
                Some(guess)
            } else {
                None
            },
            Waiter::Queued { ticket } => Some(ticket),
        }
    }

    /// `ticket` was drawn, it is the one being served, and no guard is out.
    pub open spec fn serves(self, ticket: nat) -> bool {
        self.holder == ticket && ticket < self.next && self.value is Some
    }

    /// One resumption of the waiter ends with a guard.
    pub open spec fn grants(self, waiter: Waiter) -> bool {
        self.ticket(waiter) matches Some(ticket) && self.drawn(waiter).serves(ticket)
    }

    /// The mutex after one resumption of the waiter.
    pub open spec fn resume(self, waiter: Waiter) -> Self {
        if self.grants(waiter) {
            MutexView { value: None, ..self.drawn(waiter) }
        } else {
            self.drawn(waiter)
        }
    }

    /// The waiter that is handed back when a resumption ends without a guard.
    pub open spec fn waiting(self, waiter: Waiter) -> Waiter {
        match self.ticket(waiter) {
            Some(ticket) => Waiter::Queued { ticket },
            None => Waiter::Drawing { guess: self.next },
        }
    }

    /// The guard given back is the one that is out.
    pub open spec fn accepts(self, guard: GuardView<T>) -> bool {
        self.holder == guard.token && self.value is None
    }

    /// The mutex after an attempt to give `guard` back.
    pub open spec fn release(self, guard: GuardView<T>) -> Self {
        if self.accepts(guard) {
            MutexView { holder: self.holder + 1, value: Some(guard.value), ..self }
        } else {
            self
        }
    }
}

/// A mutex that serves its waiters in the order in which they drew tickets.
#[derive(Debug)]
pub struct AsyncMut<T> {
    holder: usize,
    next: usize,
    data: Option<T>,
}

impl<T> View for AsyncMut<T> {
    type V = MutexView<T>;

    closed spec fn view(&self) -> MutexView<T> {
        MutexView { holder: self.holder as nat, next: self.next as nat, value: self.data }
    }
}

/// A lock operation that has not completed.
#[derive(Debug)]
pub struct PendingLock {
    phase: Phase,
}

#[derive(Debug)]
enum Phase {
    Drawing { guess: usize },
    Queued { ticket: usize },
}

impl View for PendingLock {
    type V = Waiter;

    closed spec fn view(&self) -> Waiter {
        match self.phase {
            Phase::Drawing { guess } => Waiter::Drawing { guess: guess as nat },
            Phase::Queued { ticket } => Waiter::Queued { ticket: ticket as nat },
        }
    }
}

impl PendingLock {
    /// Starts a lock operation. It expects to draw the first ticket.
    pub fn new() -> (op: Self)
        ensures
            op@ == (Waiter::Drawing { guess: 0 }),
    {
        PendingLock { phase: Phase::Drawing { guess: 0 } }
    }

    /// The value that the next attempt to draw a ticket expects the counter
    /// to have, while the operation has no ticket.
    pub fn guess(&self) -> (guess: Option<usize>)
        ensures
            match self@ {
                Waiter::Drawing { guess: expected } => guess == Some(expected as usize)
                    && expected <= usize::MAX,
                Waiter::Queued { .. } => guess is None,
            },
    {
        match self.phase {
            Phase::Drawing { guess } => Some(guess),
            Phase::Queued { .. } => None,
        }
    }

    /// The ticket that the operation holds, once it has drawn one.
    pub fn ticket(&self) -> (ticket: Option<usize>)
        ensures
            match self@ {
                Waiter::Drawing { .. } => ticket is None,
                Waiter::Queued { ticket: held } => ticket == Some(held as usize) && held
                    <= usize::MAX,
            },
    {
        match self.phase {
            Phase::Drawing { .. } => None,
            Phase::Queued { ticket } => Some(ticket),
        }
    }
}

/// Exclusive access to the value of a mutex, from the grant until the guard
/// is given back.
#[derive(Debug)]
pub struct Lock<T> {
    token: usize,
    value: T,
}

impl<T> View for Lock<T> {
    type V = GuardView<T>;

    closed spec fn view(&self) -> GuardView<T> {
        GuardView { token: self.token as nat, value: self.value }
    }
}

impl<T> AsyncMut<T> {
    /// The counters and the value slot agree.
    #[verifier::type_invariant]
    spec fn inv(self) -> bool {
        self@.wf()
    }

    /// Creates a mutex around `init`. No ticket is drawn yet.
    pub fn new(init: T) -> (mutex: Self)
        ensures
            mutex@ == (MutexView { holder: 0, next: 0, value: Some(init) }),
            mutex@.wf(),
    {
        AsyncMut { holder: 0, next: 0, data: Some(init) }
    }

    /// Resumes a pending lock operation once.
    ///
    /// A waiter without a ticket makes one attempt to draw the next one, and
    /// stays pending with the counter it found if another waiter was faster.
    /// A waiter with a ticket receives the guard if its ticket is being
    /// served and stays pending if not.
    pub fn lock(&mut self, op: PendingLock) -> (step: Step<Lock<T>, PendingLock>)
        requires
            op@ matches Waiter::Drawing { guess } ==> guess < usize::MAX,
        ensures
            final(self)@ == old(self)@.resume(op@),
            old(self)@.wf(),
            final(self)@.wf(),
            old(self)@.grants(op@) ==> step is Ready && step->Ready_0@ == (GuardView {
                token: old(self)@.ticket(op@)->0,
                value: old(self)@.value->0,
            }),
            !old(self)@.grants(op@) ==> step is Pending && step->Pending_0@ == old(self)@.waiting(
                op@,
            ),
    {
        proof {
            use_type_invariant(&*self);
        }
        let ticket: usize = match op.phase {
            Phase::Drawing { guess } => {
                match compare_exchange_usize(&mut self.next, guess, guess + 1) {
                    Ok(mine) => mine,
                    Err(current) => {
                        return Step::Pending(
                            PendingLock { phase: Phase::Drawing { guess: current } },
                        );
                    },
                }
            },
            Phase::Queued { ticket } => ticket,
        };
        match compare_exchange_usize(&mut self.holder, ticket, ticket) {
            Ok(mine) => {
                if mine < self.next && self.data.is_some() {
                    Step::Ready(Lock::new(self, mine))
                } else {
                    Step::Pending(PendingLock { phase: Phase::Queued { ticket } })
                }
            },
            Err(_held) => Step::Pending(PendingLock { phase: Phase::Queued { ticket } }),
        }
    }
}

impl<T> Lock<T> {
    /// Takes the value out of `owner` for the waiter that holds `token`.
    pub fn new(owner: &mut AsyncMut<T>, token: usize) -> (guard: Self)
        requires
            old(owner)@.serves(token as nat),
        ensures
            guard@ == (GuardView { token: token as nat, value: old(owner)@.value->0 }),
            final(owner)@ == (MutexView { value: None, ..old(owner)@ }),
            final(owner)@.wf(),
    {
        proof {
            use_type_invariant(&*owner);
        }
        let mut slot: Option<T> = None;
        std::mem::swap(&mut owner.data, &mut slot);
        Lock { token, value: slot.unwrap() }
    }

    /// The ticket that the guard was granted on.
    pub fn token(&self) -> (token: usize)
        ensures
            token == self@.token,
    {
        self.token
    }

    /// The protected value.
    pub fn deref(&self) -> (value: &T)
        ensures
            *value == self@.value,
    {
        &self.value
    }

    /// The protected value, to change it.
    pub fn deref_mut(&mut self) -> (value: &mut T)
        ensures
            *value == old(self)@.value,
            final(self)@ == (GuardView { token: old(self)@.token, value: *final(value) }),
    {
        &mut self.value
    }

    /// Makes one attempt to give the guard back.
    ///
    /// If this guard is the one that is out, the value returns to `owner`
    /// and the following ticket is served. If not, nothing changes and the
    /// guard is handed back to try again.
    pub fn release(self, owner: &mut AsyncMut<T>) -> (step: Step<(), Lock<T>>)
        ensures
            final(owner)@ == old(owner)@.release(self@),
            old(owner)@.wf(),
            final(owner)@.wf(),
            old(owner)@.accepts(self@) ==> step is Ready,
            !old(owner)@.accepts(self@) ==> step == Step::<(), Lock<T>>::Pending(self),
    {
        proof {
            use_type_invariant(&*owner);
        }
        if owner.data.is_some() {
            return Step::Pending(self);
        }
        let Lock { token, value } = self;
        let mut slot: Option<T> = Some(value);
        std::mem::swap(&mut owner.data, &mut slot);
        match compare_exchange_usize(&mut owner.holder, token, token.wrapping_add(1)) {
            Ok(_) => Step::Ready(()),
            Err(_other) => {
                std::mem::swap(&mut owner.data, &mut slot);
                Step::Pending(Lock { token, value: slot.unwrap() })
            },
        }
    }
}

} // verus!

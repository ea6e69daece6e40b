use async_prims::sync::mutex::{AsyncMut, Lock, PendingLock};
use async_prims::task::Step;

fn granted<T>(step: Step<Lock<T>, PendingLock>) -> Lock<T> {
    match step {
        Step::Ready(guard) => guard,
        Step::Pending(_) => panic!("the lock is still pending"),
    }
}

fn waiting<T>(step: Step<Lock<T>, PendingLock>) -> PendingLock {
    match step {
        Step::Pending(op) => op,
        Step::Ready(_) => panic!("the lock was granted"),
    }
}

fn queue_up<T>(mutex: &mut AsyncMut<T>) -> PendingLock {
    let drawing = waiting(mutex.lock(PendingLock::new()));
    waiting(mutex.lock(drawing))
}

fn released<T>(step: Step<(), Lock<T>>) {
    match step {
        Step::Ready(()) => {}
        Step::Pending(_) => panic!("the guard was not accepted"),
    }
}

fn value_of(mutex: &mut AsyncMut<i32>) -> i32 {
    let mut op = PendingLock::new();
    loop {
        match mutex.lock(op) {
            Step::Ready(guard) => {
                let value = *guard.deref();
                released(guard.release(mutex));
                return value;
            }
            Step::Pending(next) => op = next,
        }
    }
}

#[test]
fn a_new_operation_has_no_ticket_and_expects_the_first() {
    let op = PendingLock::new();
    assert_eq!(op.guess(), Some(0));
    assert_eq!(op.ticket(), None);
}

#[test]
fn first_waiter_is_granted_at_once_on_ticket_zero() {
    let mut mutex = AsyncMut::new(41);
    let mut guard = granted(mutex.lock(PendingLock::new()));
    assert_eq!(guard.token(), 0);
    assert_eq!(*guard.deref(), 41);
    *guard.deref_mut() += 1;
    assert_eq!(*guard.deref(), 42);
    released(guard.release(&mut mutex));
    assert_eq!(value_of(&mut mutex), 42);
}

#[test]
fn a_waiter_that_loses_the_draw_learns_the_counter() {
    let mut mutex = AsyncMut::new(0);
    let guard = granted(mutex.lock(PendingLock::new()));
    let late = waiting(mutex.lock(PendingLock::new()));
    assert_eq!(late.guess(), Some(1));
    assert_eq!(late.ticket(), None);
    let late = waiting(mutex.lock(late));
    assert_eq!(late.guess(), None);
    assert_eq!(late.ticket(), Some(1));
    released(guard.release(&mut mutex));
    let guard = granted(mutex.lock(late));
    assert_eq!(guard.token(), 1);
    released(guard.release(&mut mutex));
}

#[test]
fn two_tasks_increment_and_no_update_is_lost() {
    let mut mutex = AsyncMut::new(0);
    let a = PendingLock::new();
    let b = PendingLock::new();
    let mut guard_a = granted(mutex.lock(a));
    let b = waiting(mutex.lock(b));
    let b = waiting(mutex.lock(b));
    *guard_a.deref_mut() += 1;
    let b = waiting(mutex.lock(b));
    released(guard_a.release(&mut mutex));
    let mut guard_b = granted(mutex.lock(b));
    assert_eq!(*guard_b.deref(), 1);
    *guard_b.deref_mut() += 1;
    released(guard_b.release(&mut mutex));
    assert_eq!(value_of(&mut mutex), 2);
}

#[test]
fn two_tasks_increment_when_the_other_draws_first() {
    let mut mutex = AsyncMut::new(0);
    let a = PendingLock::new();
    let b = PendingLock::new();
    let mut guard_b = granted(mutex.lock(b));
    let a = waiting(mutex.lock(a));
    *guard_b.deref_mut() += 1;
    released(guard_b.release(&mut mutex));
    assert_eq!(a.guess(), Some(1));
    let mut guard_a = granted(mutex.lock(a));
    assert_eq!(guard_a.token(), 1);
    *guard_a.deref_mut() += 1;
    released(guard_a.release(&mut mutex));
    assert_eq!(value_of(&mut mutex), 2);
}

#[test]
fn every_interleaving_of_two_incrementing_tasks_ends_at_two() {
    for schedule in 0u32..64 {
        let mut mutex = AsyncMut::new(0);
        let mut pending: [Option<PendingLock>; 2] = [Some(PendingLock::new()), Some(PendingLock::new())];
        let mut done = 0;
        let mut turn = 0;
        while done < 2 {
            let task = if pending[0].is_none() {
                1
            } else if pending[1].is_none() {
                0
            } else {
                ((schedule >> (turn % 6)) & 1) as usize
            };
            turn += 1;
            let op = pending[task].take().unwrap();
            match mutex.lock(op) {
                Step::Ready(mut guard) => {
                    *guard.deref_mut() += 1;
                    released(guard.release(&mut mutex));
                    done += 1;
                }
                Step::Pending(op) => pending[task] = Some(op),
            }
        }
        assert_eq!(value_of(&mut mutex), 2);
    }
}

#[test]
fn three_waiters_are_served_in_ticket_order() {
    let mut mutex = AsyncMut::new(Vec::<usize>::new());
    let holder = granted(mutex.lock(PendingLock::new()));
    let mut waiters: Vec<Option<PendingLock>> = Vec::new();
    for _ in 0..3 {
        waiters.push(Some(queue_up(&mut mutex)));
    }
    let tickets: Vec<Option<usize>> =
        waiters.iter().map(|op| op.as_ref().unwrap().ticket()).collect();
    assert_eq!(tickets, vec![Some(1), Some(2), Some(3)]);
    released(holder.release(&mut mutex));

    let mut order: Vec<usize> = Vec::new();
    while order.len() < 3 {
        for slot in waiters.iter_mut().rev() {
            let op = match slot.take() {
                Some(op) => op,
                None => continue,
            };
            match mutex.lock(op) {
                Step::Ready(mut guard) => {
                    let token = guard.token();
                    order.push(token);
                    guard.deref_mut().push(token);
                    released(guard.release(&mut mutex));
                }
                Step::Pending(op) => *slot = Some(op),
            }
        }
    }
    assert_eq!(order, vec![1, 2, 3]);
    let late = waiting(mutex.lock(PendingLock::new()));
    let guard = granted(mutex.lock(late));
    assert_eq!(guard.token(), 4);
    assert_eq!(*guard.deref(), vec![1, 2, 3]);
    released(guard.release(&mut mutex));
}

#[test]
fn a_ticket_that_is_not_served_stays_queued() {
    let mut mutex = AsyncMut::new('x');
    let guard = granted(mutex.lock(PendingLock::new()));
    let mut queued = queue_up(&mut mutex);
    for _ in 0..5 {
        queued = waiting(mutex.lock(queued));
        assert_eq!(queued.ticket(), Some(1));
    }
    released(guard.release(&mut mutex));
    let guard = granted(mutex.lock(queued));
    assert_eq!(*guard.deref(), 'x');
    released(guard.release(&mut mutex));
}

#[test]
fn a_guard_of_another_mutex_is_handed_back() {
    let mut first = AsyncMut::new(1);
    let mut second = AsyncMut::new(2);
    let guard = granted(first.lock(PendingLock::new()));
    let guard = match guard.release(&mut second) {
        Step::Pending(guard) => guard,
        Step::Ready(()) => panic!("a mutex accepted the guard of another"),
    };
    assert_eq!(guard.token(), 0);
    assert_eq!(*guard.deref(), 1);
    assert_eq!(value_of(&mut second), 2);
    released(guard.release(&mut first));
    assert_eq!(value_of(&mut first), 1);
}

#[test]
fn a_guard_made_for_the_served_ticket_takes_the_value() {
    let mut mutex = AsyncMut::new(10);
    let holder = granted(mutex.lock(PendingLock::new()));
    let queued = queue_up(&mut mutex);
    assert_eq!(queued.ticket(), Some(1));
    released(holder.release(&mut mutex));
    let mut guard = Lock::new(&mut mutex, 1);
    assert_eq!(guard.token(), 1);
    assert_eq!(*guard.deref(), 10);
    let queued = waiting(mutex.lock(queued));
    *guard.deref_mut() = 11;
    released(guard.release(&mut mutex));
    let other = waiting(mutex.lock(queued));
    assert_eq!(other.ticket(), Some(1));
    assert_eq!(value_of(&mut mutex), 11);
}

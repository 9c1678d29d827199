use riot_rs_core::lock::Lock;
use riot_rs_core::threadlist::ThreadList;
use riot_rs_core::{
    sched, start_threading, thread_create_raw, EnsureOnce, SchedDecision, ThreadState, Threads,
};

const EXIT: usize = 0x0800_1001;

/// Three runnable threads of the same priority, the first of them current.
fn three_threads(stacks: &mut [[u8; 64]; 3]) -> EnsureOnce<Threads> {
    let mut threads = Threads::new();
    for s in stacks.iter_mut() {
        thread_create_raw(&mut threads, 0x1000, 0, s, 0x2000_0000, EXIT, 1);
    }
    let mut threads = EnsureOnce::new(threads);
    start_threading(&mut threads);
    threads
}

fn state(threads: &EnsureOnce<Threads>, pid: u8) -> ThreadState {
    threads.with(|t| t.get_unchecked(pid).state)
}

fn reschedule(threads: &mut EnsureOnce<Threads>) -> SchedDecision {
    critical_section::with(|cs| sched(threads, &cs, 0x2000_0000))
}

#[test]
fn new_lock_is_free() {
    let lock = Lock::new();
    assert!(!lock.is_locked());
    let lock = Lock::new_locked();
    assert!(lock.is_locked());
}

#[test]
fn try_acquire_takes_free_lock_once() {
    let mut lock = Lock::new();
    assert!(lock.try_acquire());
    assert!(lock.is_locked());
    assert!(!lock.try_acquire());
    assert!(lock.is_locked());
}

#[test]
fn release_without_waiters_frees_lock() {
    let mut stacks = [[0u8; 64]; 3];
    let mut threads = three_threads(&mut stacks);
    let mut lock = Lock::new();
    assert!(lock.try_acquire());
    let woken = threads.with_mut(|mut t| {
        let w = critical_section::with(|cs| lock.release(cs, &mut t));
        (t, w)
    });
    assert_eq!(woken, None);
    assert!(!lock.is_locked());
    // releasing a free lock does nothing
    let woken = threads.with_mut(|mut t| {
        let w = critical_section::with(|cs| lock.release(cs, &mut t));
        (t, w)
    });
    assert_eq!(woken, None);
    assert!(!lock.is_locked());
}

#[test]
fn acquire_free_lock_does_not_wait() {
    let mut stacks = [[0u8; 64]; 3];
    let mut threads = three_threads(&mut stacks);
    let mut lock = Lock::new();
    let must_wait = threads.with_mut(|mut t| {
        let w = critical_section::with(|cs| lock.acquire(cs, &mut t));
        (t, w)
    });
    assert!(!must_wait);
    assert!(lock.is_locked());
    assert_eq!(state(&threads, 0), ThreadState::Running);
}

#[test]
fn blocked_thread_gets_lock_on_release() {
    let mut stacks = [[0u8; 64]; 3];
    let mut threads = three_threads(&mut stacks);
    let mut lock = Lock::new_locked();
    // thread 0 blocks on the held lock
    let must_wait = threads.with_mut(|mut t| {
        let w = critical_section::with(|cs| lock.acquire(cs, &mut t));
        (t, w)
    });
    assert!(must_wait);
    assert_eq!(state(&threads, 0), ThreadState::LockBlocked);
    assert_eq!(
        reschedule(&mut threads),
        SchedDecision::Switch { prev: 0, next: 1, next_sp: 0x2000_0000 + 64 - 36 }
    );
    // thread 1 blocks too
    let must_wait = threads.with_mut(|mut t| {
        let w = critical_section::with(|cs| lock.acquire(cs, &mut t));
        (t, w)
    });
    assert!(must_wait);
    assert_eq!(state(&threads, 1), ThreadState::LockBlocked);
    // the last one that came is woken first, and the lock stays taken
    let woken = threads.with_mut(|mut t| {
        let w = critical_section::with(|cs| lock.release(cs, &mut t));
        (t, w)
    });
    assert_eq!(woken, Some(1));
    assert!(lock.is_locked());
    assert_eq!(state(&threads, 1), ThreadState::Running);
    let woken = threads.with_mut(|mut t| {
        let w = critical_section::with(|cs| lock.release(cs, &mut t));
        (t, w)
    });
    assert_eq!(woken, Some(0));
    assert!(lock.is_locked());
    assert_eq!(state(&threads, 0), ThreadState::Running);
    let woken = threads.with_mut(|mut t| {
        let w = critical_section::with(|cs| lock.release(cs, &mut t));
        (t, w)
    });
    assert_eq!(woken, None);
    assert!(!lock.is_locked());
}

#[test]
fn threadlist_is_last_in_first_out() {
    let mut stacks = [[0u8; 64]; 3];
    let mut threads = three_threads(&mut stacks);
    let mut list = ThreadList::new();
    critical_section::with(|cs| assert!(list.is_empty(cs)));
    threads.with_mut(|mut t| {
        critical_section::with(|cs| list.put_current(cs, &mut t, ThreadState::Paused));
        (t, ())
    });
    assert_eq!(state(&threads, 0), ThreadState::Paused);
    reschedule(&mut threads);
    threads.with_mut(|mut t| {
        critical_section::with(|cs| list.put_current(cs, &mut t, ThreadState::Zombie));
        (t, ())
    });
    assert_eq!(state(&threads, 1), ThreadState::Zombie);
    critical_section::with(|cs| assert!(!list.is_empty(cs)));
    let first = threads.with_mut(|mut t| {
        let r = critical_section::with(|cs| list.pop(cs, &mut t));
        (t, r)
    });
    assert_eq!(first, Some((1, ThreadState::Zombie)));
    let second = threads.with_mut(|mut t| {
        let r = critical_section::with(|cs| list.pop(cs, &mut t));
        (t, r)
    });
    assert_eq!(second, Some((0, ThreadState::Paused)));
    assert_eq!(state(&threads, 0), ThreadState::Running);
    let none = threads.with_mut(|mut t| {
        let r = critical_section::with(|cs| list.pop(cs, &mut t));
        (t, r)
    });
    assert_eq!(none, None);
    critical_section::with(|cs| assert!(list.is_empty(cs)));
}

#[test]
fn ensure_once_hands_out_its_value() {
    let mut cell = EnsureOnce::new(5u32);
    assert_eq!(cell.with(|v| *v + 1), 6);
    let r = cell.with_mut(|v| (v * 10, "done"));
    assert_eq!(r, "done");
    assert_eq!(critical_section::with(|cs| cell.with_cs(&cs, |v| *v)), 50);
    let old = critical_section::with(|cs| cell.with_mut_cs(&cs, |v| (v + 1, v)));
    assert_eq!(old, 50);
    assert_eq!(cell.with(|v| *v), 51);
}

#[test]
fn threadlist_head_is_last_put() {
    let mut stacks = [[0u8; 64]; 3];
    let mut threads = three_threads(&mut stacks);
    let mut list = ThreadList::new();
    assert_eq!(list.head(), None);
    threads.with_mut(|mut t| {
        critical_section::with(|cs| list.put_current(cs, &mut t, ThreadState::LockBlocked));
        (t, ())
    });
    assert_eq!(list.head(), Some(0));
    reschedule(&mut threads);
    threads.with_mut(|mut t| {
        critical_section::with(|cs| list.put_current(cs, &mut t, ThreadState::LockBlocked));
        (t, ())
    });
    assert_eq!(list.head(), Some(1));
    threads.with_mut(|mut t| {
        critical_section::with(|cs| list.pop(cs, &mut t));
        (t, ())
    });
    assert_eq!(list.head(), Some(0));
}

#[test]
fn put_then_pop_restores_thread() {
    let mut stacks = [[0u8; 64]; 3];
    let mut threads = three_threads(&mut stacks);
    let mut list = ThreadList::new();
    threads.with_mut(|mut t| {
        critical_section::with(|cs| list.put_current(cs, &mut t, ThreadState::Paused));
        (t, ())
    });
    let r = threads.with_mut(|mut t| {
        let r = critical_section::with(|cs| list.pop(cs, &mut t));
        (t, r)
    });
    assert_eq!(r, Some((0, ThreadState::Paused)));
    assert_eq!(state(&threads, 0), ThreadState::Running);
    assert_eq!(list.head(), None);
    // thread 0 rejoined its queue at the tail
    assert_eq!(threads.with(|t| t.next_pid()), Some(1));
}

#[test]
fn ensure_once_round_trip() {
    let v = String::from("table");
    let e = EnsureOnce::new(v.clone());
    assert!(e.with(|r| *r == v));
    let mut e = e;
    let n = e.with_mut(|s| (s, 3));
    assert_eq!(n, 3);
    assert!(e.with(|r| *r == v));
}

#[test]
fn lock_reports_its_waiters() {
    let mut stacks = [[0u8; 64]; 3];
    let mut threads = three_threads(&mut stacks);
    let mut lock = Lock::new_locked();
    assert_eq!(lock.first_waiter(), None);
    threads.with_mut(|mut t| {
        critical_section::with(|cs| lock.acquire(cs, &mut t));
        (t, ())
    });
    assert_eq!(lock.first_waiter(), Some(0));
    assert!(threads.with(|t| lock.is_waiting(t, 0)));
    assert!(!threads.with(|t| lock.is_waiting(t, 1)));
    assert!(threads.with(|t| t.can_run(0)));
    assert_eq!(threads.with(|t| t.blocked_next(0)), None);
}

#[test]
fn threadlist_contains_follows_links() {
    let mut stacks = [[0u8; 64]; 3];
    let mut threads = three_threads(&mut stacks);
    let mut list = ThreadList::new();
    for _ in 0..2 {
        threads.with_mut(|mut t| {
            critical_section::with(|cs| list.put_current(cs, &mut t, ThreadState::Paused));
            (t, ())
        });
        reschedule(&mut threads);
    }
    assert!(threads.with(|t| list.contains(t, 0)));
    assert!(threads.with(|t| list.contains(t, 1)));
    assert!(!threads.with(|t| list.contains(t, 2)));
    assert_eq!(threads.with(|t| t.blocked_next(1)), Some(0));
}

use riot_rs_core::arch::cortex_m::{setup_stack, FRAME_OFFSET};
use riot_rs_core::thread::sleep;
use riot_rs_core::{
    cleanup, current_pid, sched, start_threading, thread_create, thread_create_raw, Arguable,
    EnsureOnce, SchedDecision, Thread, ThreadState, Threads, WaitMode, SCHED_PRIO_LEVELS,
    THREADS_NUMOF,
};

const EXIT: usize = 0x0800_1001;

fn create(threads: &mut Threads, func: usize, arg: usize, stack: &mut [u8], prio: u8) {
    let start = 0x2000_0000;
    thread_create_raw(threads, func, arg, stack, start, EXIT, prio);
}

fn word_at(stack: &[u8], at: usize) -> u32 {
    u32::from_le_bytes([stack[at], stack[at + 1], stack[at + 2], stack[at + 3]])
}

#[test]
fn default_thread_is_unused() {
    let t = Thread::default();
    assert_eq!(t.sp, 0);
    assert_eq!(t.state, ThreadState::Invalid);
    assert_eq!(t.prio, 0);
    assert_eq!(t.pid, 0);
    assert_eq!(t.flags, 0);
    assert_eq!(t.high_regs, [0; 8]);
}

#[test]
fn new_threads_are_empty() {
    let threads = Threads::new();
    assert_eq!(threads.current_pid(), None);
    assert_eq!(threads.next_pid(), None);
    assert_eq!(threads.get_unused(), Some(0));
    for pid in 0..THREADS_NUMOF as u8 {
        assert_eq!(threads.get_unchecked(pid).state, ThreadState::Invalid);
    }
}

#[test]
fn setup_stack_writes_initial_frame() {
    let mut stack = [0xAAu8; 64];
    let sp = setup_stack(&mut stack, 0x2000_0000, 0x0800_0101, 42, EXIT);
    assert_eq!(sp, 0x2000_0000 + 64 - FRAME_OFFSET);
    let base = 64 - FRAME_OFFSET;
    let expected: [u32; 8] = [42, 1, 2, 3, 12, EXIT as u32, 0x0800_0101, 0x0100_0000];
    for (i, w) in expected.iter().enumerate() {
        assert_eq!(word_at(&stack, base + 4 * i), *w);
    }
    // bytes outside the frame are left alone
    for i in 0..base {
        assert_eq!(stack[i], 0xAA);
    }
    for i in 60..64 {
        assert_eq!(stack[i], 0xAA);
    }
}

#[test]
fn setup_stack_byte_order_is_little_endian() {
    let mut stack = [0u8; 36];
    let sp = setup_stack(&mut stack, 0x100, 0x1122_3344, 0x5566_7788, 0x99AA_BBCC);
    assert_eq!(sp, 0x100);
    assert_eq!(&stack[0..4], &[0x88, 0x77, 0x66, 0x55]);
    assert_eq!(&stack[20..24], &[0xCC, 0xBB, 0xAA, 0x99]);
    assert_eq!(&stack[24..28], &[0x44, 0x33, 0x22, 0x11]);
    assert_eq!(&stack[28..32], &[0x00, 0x00, 0x00, 0x01]);
}

#[test]
fn create_fills_first_unused_slot() {
    let mut threads = Threads::new();
    let mut stack = [0u8; 128];
    let pid = threads.create(0x1000, 7, &mut stack, 0x2000_0000, EXIT, 3);
    assert_eq!(pid, Some(0));
    let t = threads.get_unchecked(0);
    assert_eq!(t.state, ThreadState::Paused);
    assert_eq!(t.prio, 3);
    assert_eq!(t.pid, 0);
    assert_eq!(t.sp, 0x2000_0000 + 128 - 36);
    // a paused thread is not runnable
    assert_eq!(threads.next_pid(), None);
    assert_eq!(threads.get_unused(), Some(1));
}

#[test]
fn create_fails_when_full() {
    let mut threads = Threads::new();
    for i in 0..THREADS_NUMOF {
        let mut stack = [0u8; 64];
        assert_eq!(threads.create(0x1000, i, &mut stack, 0x2000_0000, EXIT, 0), Some(i as u8));
    }
    assert_eq!(threads.get_unused(), None);
    let mut stack = [0x55u8; 64];
    assert_eq!(threads.create(0x1000, 0, &mut stack, 0x2000_0000, EXIT, 0), None);
    assert!(stack.iter().all(|b| *b == 0x55));
}

#[test]
fn thread_create_makes_thread_runnable() {
    let mut threads = Threads::new();
    let mut stack = [0u8; 64];
    create(&mut threads, 0x1000, 5, &mut stack, 2);
    assert_eq!(threads.get_unchecked(0).state, ThreadState::Running);
    assert_eq!(threads.next_pid(), Some(0));
    assert_eq!(word_at(&stack, 64 - 36), 5);
}

#[test]
fn thread_create_takes_arguable_args() {
    let mut threads = Threads::new();
    let mut s0 = [0u8; 64];
    let mut s1 = [0u8; 64];
    thread_create(&mut threads, 0x1000, 77usize, &mut s0, 0x2000_0000, EXIT, 0);
    thread_create(&mut threads, 0x1000, (), &mut s1, 0x2000_0000, EXIT, 0);
    assert_eq!(word_at(&s0, 64 - 36), 77);
    assert_eq!(word_at(&s1, 64 - 36), 0);
    assert_eq!(77usize.into_arg(), 77);
    assert_eq!(().into_arg(), 0);
}

#[test]
fn next_is_highest_priority() {
    let mut threads = Threads::new();
    let mut s = [[0u8; 64]; 4];
    let [a, b, c, d] = &mut s;
    create(&mut threads, 0x1000, 0, a, 1);
    create(&mut threads, 0x1000, 0, b, 5);
    create(&mut threads, 0x1000, 0, c, 5);
    create(&mut threads, 0x1000, 0, d, 3);
    // pid 1 came first into the highest queue
    assert_eq!(threads.next_pid(), Some(1));
    assert_eq!(threads.set_state(1, ThreadState::Paused), ThreadState::Running);
    assert_eq!(threads.next_pid(), Some(2));
    assert_eq!(threads.set_state(2, ThreadState::LockBlocked), ThreadState::Running);
    assert_eq!(threads.next_pid(), Some(3));
    assert_eq!(threads.set_state(3, ThreadState::FlagBlocked(WaitMode::Any(1))), ThreadState::Running);
    assert_eq!(threads.next_pid(), Some(0));
    assert_eq!(threads.set_state(0, ThreadState::Zombie), ThreadState::Running);
    assert_eq!(threads.next_pid(), None);
}

#[test]
fn set_state_back_to_running_rejoins_tail() {
    let mut threads = Threads::new();
    let mut a = [0u8; 64];
    let mut b = [0u8; 64];
    create(&mut threads, 0x1000, 0, &mut a, 4);
    create(&mut threads, 0x1000, 0, &mut b, 4);
    assert_eq!(threads.next_pid(), Some(0));
    assert_eq!(threads.set_state(0, ThreadState::Paused), ThreadState::Running);
    assert_eq!(threads.set_state(0, ThreadState::Running), ThreadState::Paused);
    // thread 0 now waits behind thread 1
    assert_eq!(threads.next_pid(), Some(1));
    // running -> running changes nothing
    assert_eq!(threads.set_state(1, ThreadState::Running), ThreadState::Running);
    assert_eq!(threads.next_pid(), Some(1));
    // a paused thread can be paused again without touching the runqueue
    assert_eq!(threads.set_state(1, ThreadState::Paused), ThreadState::Running);
    assert_eq!(threads.set_state(1, ThreadState::Paused), ThreadState::Paused);
    assert_eq!(threads.next_pid(), Some(0));
}

#[test]
fn sched_idle_without_runnable_threads() {
    let mut threads = EnsureOnce::new(Threads::new());
    let d = critical_section::with(|cs| sched(&mut threads, &cs, 0x1234));
    assert_eq!(d, SchedDecision::Idle);
}

#[test]
fn sched_without_current_switches_nothing() {
    let mut threads = Threads::new();
    let mut a = [0u8; 64];
    create(&mut threads, 0x1000, 0, &mut a, 1);
    let mut threads = EnsureOnce::new(threads);
    let d = critical_section::with(|cs| sched(&mut threads, &cs, 0x1234));
    assert_eq!(d, SchedDecision::NoCurrent { next: 0, next_sp: 0x2000_0000 + 64 - 36 });
    assert_eq!(current_pid(&threads), None);
}

#[test]
fn start_then_sched_switches_to_higher_priority() {
    let mut threads = Threads::new();
    let mut a = [0u8; 64];
    let mut b = [0u8; 128];
    create(&mut threads, 0x1000, 0, &mut a, 1);
    let mut threads = EnsureOnce::new(threads);
    let sp = start_threading(&mut threads);
    assert_eq!(sp, 0x2000_0000 + 64 - 36);
    assert_eq!(current_pid(&threads), Some(0));

    // the current thread is still the one to run
    let d = critical_section::with(|cs| sched(&mut threads, &cs, 0x2000_0010));
    assert_eq!(d, SchedDecision::Stay);

    // a higher-priority thread appears
    threads.with_mut(|mut t| {
        create(&mut t, 0x2000, 9, &mut b, 6);
        (t, ())
    });
    let d = critical_section::with(|cs| sched(&mut threads, &cs, 0x2000_0010));
    assert_eq!(d, SchedDecision::Switch { prev: 0, next: 1, next_sp: 0x2000_0000 + 128 - 36 });
    assert_eq!(current_pid(&threads), Some(1));
    // the interrupted thread keeps the stack pointer it stopped at
    let sp0 = threads.with(|t| t.get_unchecked(0).sp);
    assert_eq!(sp0, 0x2000_0010);
}

#[test]
fn sleep_pauses_current_and_sched_moves_on() {
    let mut threads = Threads::new();
    let mut a = [0u8; 64];
    let mut b = [0u8; 64];
    create(&mut threads, 0x1000, 0, &mut a, 2);
    create(&mut threads, 0x1000, 0, &mut b, 2);
    let mut threads = EnsureOnce::new(threads);
    start_threading(&mut threads);
    assert_eq!(current_pid(&threads), Some(0));
    sleep(&mut threads);
    assert_eq!(threads.with(|t| t.get_unchecked(0).state), ThreadState::Paused);
    let d = critical_section::with(|cs| sched(&mut threads, &cs, 0x2000_0004));
    assert_eq!(d, SchedDecision::Switch { prev: 0, next: 1, next_sp: 0x2000_0000 + 64 - 36 });
}

#[test]
fn cleanup_frees_current_slot() {
    let mut threads = Threads::new();
    let mut a = [0u8; 64];
    let mut b = [0u8; 64];
    create(&mut threads, 0x1000, 0, &mut a, 7);
    create(&mut threads, 0x1000, 0, &mut b, 0);
    let mut threads = EnsureOnce::new(threads);
    start_threading(&mut threads);
    assert_eq!(cleanup(&mut threads), 0);
    assert_eq!(threads.with(|t| t.get_unchecked(0).state), ThreadState::Invalid);
    assert_eq!(threads.with(|t| t.get_unused()), Some(0));
    assert_eq!(threads.with(|t| t.next_pid()), Some(1));
}

#[test]
fn by_pid_gives_thread_in_place() {
    let mut threads = Threads::new();
    threads.by_pid_unckecked(3).flags = 0x10;
    assert_eq!(threads.get_unchecked(3).flags, 0x10);
    assert!(threads.current().is_none());
    let mut a = [0u8; 64];
    create(&mut threads, 0x1000, 0, &mut a, 1);
    let mut threads = EnsureOnce::new(threads);
    start_threading(&mut threads);
    threads.with_mut(|mut t| {
        t.current().unwrap().high_regs[2] = 99;
        (t, ())
    });
    assert_eq!(threads.with(|t| t.get_unchecked(0).high_regs[2]), 99);
}

#[test]
fn prio_levels_and_slots() {
    assert_eq!(SCHED_PRIO_LEVELS, 8);
    assert_eq!(THREADS_NUMOF, 8);
}

#[test]
fn create_paused_thread_with_any_priority() {
    let mut threads = Threads::new();
    let mut stack = [0u8; 64];
    assert_eq!(threads.create(0x1000, 0, &mut stack, 0x2000_0000, EXIT, 200), Some(0));
    assert_eq!(threads.get_unchecked(0).prio, 200);
    assert_eq!(threads.get_unchecked(0).state, ThreadState::Paused);
    assert_eq!(threads.next_pid(), None);
}

#[test]
fn create_when_full_accepts_any_stack() {
    let mut threads = Threads::new();
    for i in 0..THREADS_NUMOF {
        let mut stack = [0u8; 64];
        assert_eq!(threads.create(0x1000, i, &mut stack, 0x2000_0000, EXIT, 1), Some(i as u8));
    }
    let mut tiny = [1u8; 4];
    assert_eq!(threads.create(0x1000, 0, &mut tiny, usize::MAX, EXIT, 99), None);
    assert_eq!(tiny, [1u8; 4]);
}

#[test]
fn set_state_twice_is_set_state_once() {
    let mut threads = Threads::new();
    let mut a = [0u8; 64];
    let mut b = [0u8; 64];
    create(&mut threads, 0x1000, 0, &mut a, 3);
    create(&mut threads, 0x1000, 0, &mut b, 3);
    assert_eq!(threads.set_state(1, ThreadState::Running), ThreadState::Running);
    assert_eq!(threads.set_state(1, ThreadState::Running), ThreadState::Running);
    assert_eq!(threads.set_state(0, ThreadState::Paused), ThreadState::Running);
    assert_eq!(threads.set_state(0, ThreadState::Paused), ThreadState::Paused);
    assert_eq!(threads.next_pid(), Some(1));
    assert_eq!(threads.set_state(1, ThreadState::Paused), ThreadState::Running);
    assert_eq!(threads.next_pid(), None);
}

#[test]
fn current_can_leave_only_when_scheduled() {
    let mut threads = Threads::new();
    assert!(!threads.current_can_leave());
    let mut a = [0u8; 64];
    let mut b = [0u8; 64];
    create(&mut threads, 0x1000, 0, &mut a, 1);
    let mut threads = EnsureOnce::new(threads);
    start_threading(&mut threads);
    assert!(threads.with(|t| t.current_can_leave()));
    // a higher-priority thread becomes runnable: the current one is no longer the pick
    threads.with_mut(|mut t| {
        create(&mut t, 0x1000, 0, &mut b, 4);
        (t, ())
    });
    assert!(!threads.with(|t| t.current_can_leave()));
    critical_section::with(|cs| sched(&mut threads, &cs, 0x2000_0000));
    assert!(threads.with(|t| t.current_can_leave()));
    sleep(&mut threads);
    // a paused current thread may be given another state
    assert!(threads.with(|t| t.current_can_leave()));
}

#[test]
fn thread_create_writes_seven_in_r0() {
    let mut threads = Threads::new();
    let mut s = [0u8; 64];
    thread_create(&mut threads, 0x0800_0201, 7usize, &mut s, 0x2000_0000, EXIT, 2);
    let t = threads.get_unchecked(0);
    assert_eq!(t.state, ThreadState::Running);
    assert_eq!(t.pid, 0);
    assert_eq!(t.prio, 2);
    assert_eq!(t.sp, 0x2000_0000 + 28);
    assert_eq!(word_at(&s, 28), 7);
    assert_eq!(word_at(&s, 52), 0x0800_0201);
    assert_eq!(threads.next_pid(), Some(0));
}

#[test]
fn can_run_checks_slot_and_priority() {
    let mut threads = Threads::new();
    // an unused slot with the default id 0: only slot 0 holds its own id
    assert!(threads.can_run(0));
    assert!(!threads.can_run(1));
    assert!(!threads.can_run(8));
    let mut a = [0u8; 64];
    assert_eq!(threads.create(0x1000, 0, &mut a, 0x2000_0000, EXIT, 12), Some(0));
    assert!(!threads.can_run(0));
    let mut b = [0u8; 64];
    assert_eq!(threads.create(0x1000, 0, &mut b, 0x2000_0000, EXIT, 7), Some(1));
    assert!(threads.can_run(1));
}

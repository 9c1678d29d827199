# riot_rs_core

The core of a small preemptive kernel for Cortex-M: a table of eight threads, a runqueue with
eight priority levels (`riot-rs-runqueue`), lists of waiting threads, locks, and the
scheduler's decision on each context switch. All of it is verified with Verus in `src/`:

- `lib.rs`: threads, their states, the thread table (`Threads`) with its model
  (`ThreadsModel`) and invariant (the runqueue holds exactly the running threads), thread
  creation, the scheduler (`sched`, `start_threading`), thread exit (`cleanup`).
- `runqueue.rs`: the runqueue of `riot-rs-runqueue`, described by what each queue holds.
- `critical.rs`, `ensure_once.rs`: critical sections (`critical-section`) and a value that
  is only reached inside one.
- `threadlist.rs`, `lock.rs`: waiting lists linked through the thread table, and locks.
- `arch/cortex_m.rs`: the initial stack frame of a new thread.
- `laws.rs`: properties that span operations.

The library only asks `critical-section` for critical sections; the firmware picks their
implementation (on Cortex-M, that of `cortex-m` with its `critical-section-single-core`
feature, which masks interrupts). The tests use the `std` implementation.

`app/` holds what runs on the hardware: the global thread table, PendSV/SVCall, pending the
scheduler and printing.

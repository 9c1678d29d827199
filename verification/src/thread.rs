use vstd::prelude::*;

pub use crate::{RunqueueId, ThreadFlags, ThreadId, Thread, ThreadState};
use crate::{EnsureOnce, Threads};

verus! {

/// Suspend/pause the current thread's execution: it becomes `Paused` and leaves the
/// runqueue. The caller then triggers the scheduler.
pub fn sleep(threads: &mut EnsureOnce<Threads>)
    requires
        old(threads).wf(),
        old(threads).value().wf(),
        old(threads).value()@.current is Some,
        old(threads).value()@.can_set_state(
            old(threads).value()@.current->0 as int,
            ThreadState::Paused,
        ),
    ensures
        final(threads).wf(),
        final(threads).value().wf(),
        final(threads).value()@ == old(threads).value()@.with_state(
            old(threads).value()@.current->0 as int,
            ThreadState::Paused,
        ),
{
    let body = |t: Threads| -> (out: (Threads, ()))
        requires
            t.wf(),
            t@.current is Some,
            t@.can_set_state(t@.current->0 as int, ThreadState::Paused),
        ensures
            out.0.wf(),
            out.0@ == t@.with_state(t@.current->0 as int, ThreadState::Paused),
    {
        let mut t = t;
        let pid = t.current_pid().unwrap();
        t.set_state(pid, ThreadState::Paused);
        (t, ())
    };
    threads.with_mut(body)
}

} // verus!

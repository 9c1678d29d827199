use vstd::prelude::*;

use crate::runqueue::{is_queued, next_queued};
use crate::threadlist::head_of;
use crate::{SchedDecision, ThreadId, ThreadState, ThreadsModel, THREADS_NUMOF};

verus! {

/// In a well-formed scheduler a thread is in the runqueue exactly when it is `Running`.
pub proof fn law_running_iff_queued(m: ThreadsModel, p: int)
    requires
        m.wf(),
        0 <= p < THREADS_NUMOF,
    ensures
        m.state(p) is Running <==> is_queued(m.queues, p as ThreadId),
{
    if m.state(p) is Running {
        assert(m.queues[m.prio(p)].contains(p as ThreadId));
    } else {
        m.lemma_not_running_not_queued(p);
    }
}

/// The scheduler runs a thread of the highest priority among the running ones, and idles
/// only when no thread is running.
pub proof fn law_scheduler_picks_highest_priority(m: ThreadsModel, old_sp: usize)
    requires
        m.wf(),
    ensures
        m.sched_decision(old_sp) is Idle <==> forall|p: int|
            0 <= p < THREADS_NUMOF ==> !(#[trigger] m.state(p) is Running),
        m.sched_decision(old_sp) is Stay || m.sched_decision(old_sp) is Switch ==> {
            let c = m.after_sched(old_sp).current->0;
            &&& m.after_sched(old_sp).current == next_queued(m.queues)
            &&& m.state(c as int) is Running
            &&& forall|p: int|
                0 <= p < THREADS_NUMOF && #[trigger] m.state(p) is Running ==> m.prio(p) <= m.prio(c as int)
        },
{
    m.lemma_next_is_runnable();
    if let Some(n) = next_queued(m.queues) {
        assert(m.state(n as int) is Running);
    }
}

/// Once the scheduler has let a thread run, that thread may take any state: in particular it
/// may block or pause itself.
pub proof fn law_scheduled_thread_can_block(m: ThreadsModel, old_sp: usize, state: ThreadState)
    requires
        m.wf(),
        m.sched_decision(old_sp) is Stay || m.sched_decision(old_sp) is Switch,
    ensures
        m.after_sched(old_sp).wf(),
        m.after_sched(old_sp).current_scheduled(),
        m.after_sched(old_sp).can_set_state(m.after_sched(old_sp).current->0 as int, state),
{
    m.lemma_next_is_runnable();
    let n = next_queued(m.queues)->0;
    let a = m.after_sched(old_sp);
    if m.sched_decision(old_sp) is Switch {
        let prev = m.current->0;
        let mid = m.with_thread(prev as int, crate::Thread { sp: old_sp, ..m.threads[prev as int] });
        m.lemma_sp_update_wf(prev as int, old_sp);
        mid.lemma_current_wf(n);
        assert(a == (ThreadsModel { current: Some(n), ..mid }));
        assert(a.threads[n as int].state == m.threads[n as int].state);
        assert(a.threads[n as int].prio == m.threads[n as int].prio);
        assert(a.threads[n as int].pid == m.threads[n as int].pid);
    }
    assert(a.wf());
}

/// Giving a thread back the state it had restores the thread table; the runqueue is the
/// same too unless the thread stopped running in between (it then rejoins at the tail).
pub proof fn law_set_state_back(m: ThreadsModel, p: int, state: ThreadState)
    requires
        m.wf(),
        m.can_set_state(p, state),
        m.with_state(p, state).can_set_state(p, m.state(p)),
    ensures
        m.with_state(p, state).with_state(p, m.state(p)).threads == m.threads,
        !(m.state(p) is Running) || state is Running ==> m.with_state(p, state).with_state(
            p,
            m.state(p),
        ).queues == m.queues,
{
    let a = m.with_state(p, state);
    let b = a.with_state(p, m.state(p));
    let q = m.prio(p);
    assert(b.threads =~= m.threads);
    if !(m.state(p) is Running) && state is Running {
        assert(a.queues[q] == m.queues[q].push(p as ThreadId));
        if m.queues[q].len() > 0 {
            m.lemma_not_running_not_queued(p);
            assert(a.queues[q][0] == m.queues[q][0]);
            assert(false);
        }
        assert(b.queues[q] =~= m.queues[q]);
        assert(b.queues =~= m.queues);
    } else if m.state(p) is Running && state is Running {
        assert(b.queues =~= m.queues);
    } else if !(m.state(p) is Running) && !(state is Running) {
        assert(b.queues =~= m.queues);
    }
}

/// A list of waiting threads gives back first the thread that joined it last: after
/// `put_current` puts `c` in front of `waiters`, `pop` hands out `c` and leaves `waiters`.
pub proof fn law_waiters_last_in_first_out(waiters: Seq<ThreadId>, c: ThreadId)
    ensures
        head_of(seq![c].add(waiters)) == Some(c),
        seq![c].add(waiters).drop_first() == waiters,
{
    assert(seq![c].add(waiters).drop_first() =~= waiters);
}

/// Giving a thread the same state twice does what giving it once does: it is never added to
/// or removed from the runqueue twice.
pub proof fn law_set_state_idempotent(m: ThreadsModel, p: int, state: ThreadState)
    requires
        m.wf(),
        m.can_set_state(p, state),
    ensures
        m.with_state(p, state).can_set_state(p, state),
        m.with_state(p, state).with_state(p, state) == m.with_state(p, state),
{
    let a = m.with_state(p, state);
    let b = a.with_state(p, state);
    assert(b.threads =~= a.threads);
    assert(b.queues =~= a.queues);
}

/// A running current thread that `put_current` puts on a list with a state other than
/// `Running`, and that `pop` then takes back, runs again with the thread table as before and
/// its link cleared; it rejoins the runqueue at the tail of its queue, and the list is as
/// before.
pub proof fn law_put_then_pop(m: ThreadsModel, waiters: Seq<ThreadId>, state: ThreadState)
    requires
        m.wf(),
        m.current matches Some(c) && m.state(c as int) is Running && m.can_set_state(c as int, state)
            && m.blocklist[c as int] is None,
        !(state is Running),
    ensures
        ({
            let c = m.current->0 as int;
            let put = m.with_blocked_next(c, head_of(waiters)).with_state(c, state);
            let popped = put.with_blocked_next(c, None).with_state(c, ThreadState::Running);
            &&& put.wf()
            &&& put.can_set_state(c, ThreadState::Running)
            &&& put.state(c) == state
            &&& head_of(seq![c as ThreadId].add(waiters)) == Some(c as ThreadId)
            &&& seq![c as ThreadId].add(waiters).drop_first() == waiters
            &&& popped.wf()
            &&& popped.threads == m.threads
            &&& popped.blocklist == m.blocklist
            &&& popped.current == m.current
            &&& popped.queues == m.queues.update(
                m.prio(c),
                m.queues[m.prio(c)].drop_first().push(c as ThreadId),
            )
        }),
{
    let c = m.current->0 as int;
    let linked = m.with_blocked_next(c, head_of(waiters));
    m.lemma_wf_frame(linked);
    let put = linked.with_state(c, state);
    linked.lemma_with_state_wf(c, state);
    let unlinked = put.with_blocked_next(c, None);
    put.lemma_wf_frame(unlinked);
    let popped = unlinked.with_state(c, ThreadState::Running);
    unlinked.lemma_with_state_wf(c, ThreadState::Running);
    assert(popped.threads =~= m.threads);
    assert(popped.blocklist =~= m.blocklist);
    assert(seq![c as ThreadId].add(waiters).drop_first() =~= waiters);
}

/// When a thread is current and the runqueue offers another one, the scheduler switches
/// from the current thread to the offered one: the interrupted thread keeps `old_sp` as its
/// saved stack pointer (whatever its state), nothing else of any thread changes, and the
/// offered thread becomes current.
pub proof fn law_sched_switches_from_current(m: ThreadsModel, old_sp: usize)
    requires
        m.wf(),
        m.current is Some,
        next_queued(m.queues) is Some,
        next_queued(m.queues) != m.current,
    ensures
        ({
            let c = m.current->0;
            let n = next_queued(m.queues)->0;
            let a = m.after_sched(old_sp);
            &&& m.sched_decision(old_sp) == (SchedDecision::Switch {
                prev: c,
                next: n,
                next_sp: m.threads[n as int].sp,
            })
            &&& a.current == Some(n)
            &&& a.threads.len() == m.threads.len()
            &&& a.threads[c as int].sp == old_sp
            &&& a.threads[c as int].state == m.threads[c as int].state
            &&& a.threads[c as int].prio == m.threads[c as int].prio
            &&& a.threads[c as int].pid == m.threads[c as int].pid
            &&& a.threads[c as int].flags == m.threads[c as int].flags
            &&& a.threads[c as int].high_regs == m.threads[c as int].high_regs
            &&& forall|p: int| 0 <= p < THREADS_NUMOF && p != c ==> #[trigger] a.threads[p] == m.threads[p]
            &&& a.queues == m.queues
            &&& a.blocklist == m.blocklist
            &&& m.state(n as int) is Running
        }),
{
    m.lemma_next_is_runnable();
}

/// Any switch the scheduler decides starts from the current thread, and it only reports
/// that no thread is current when none is.
pub proof fn law_sched_switch_only_from_current(m: ThreadsModel, old_sp: usize)
    requires
        m.wf(),
    ensures
        m.sched_decision(old_sp) matches SchedDecision::Switch { prev, next, next_sp } ==> (
            m.current == Some(prev) && next_queued(m.queues) == Some(next) && prev != next
                && m.after_sched(old_sp).current == Some(next)
                && m.after_sched(old_sp).threads[prev as int].sp == old_sp),
        m.sched_decision(old_sp) is NoCurrent ==> m.current is None,
        m.sched_decision(old_sp) is Stay ==> m.current is Some && m.current == next_queued(m.queues),
        m.sched_decision(old_sp) is Stay || m.sched_decision(old_sp) is NoCurrent ==> m.after_sched(old_sp)
            == m,
        m.sched_decision(old_sp) matches SchedDecision::NoCurrent { next, next_sp } ==> (next_queued(m.queues)
            == Some(next) && next_sp == m.threads[next as int].sp),
{
}

/// With nothing runnable the scheduler idles and changes nothing, the current thread
/// included; the scheduler never clears the current thread.
pub proof fn law_sched_idle_changes_nothing(m: ThreadsModel, old_sp: usize)
    requires
        m.wf(),
    ensures
        m.sched_decision(old_sp) is Idle <==> forall|p: int|
            0 <= p < THREADS_NUMOF ==> !(#[trigger] m.state(p) is Running),
        m.sched_decision(old_sp) is Idle ==> m.after_sched(old_sp) == m,
        m.current is Some ==> m.after_sched(old_sp).current is Some,
        m.after_sched(old_sp).queues == m.queues,
        m.after_sched(old_sp).blocklist == m.blocklist,
{
    m.lemma_next_is_runnable();
}

/// Starting makes current the running thread of the highest priority that the runqueue
/// offers, and changes nothing else.
pub proof fn law_start_runs_highest_priority(m: ThreadsModel)
    requires
        m.wf(),
        exists|p: int| 0 <= p < THREADS_NUMOF && #[trigger] m.state(p) is Running,
    ensures
        ({
            let s = m.started();
            &&& s.current == next_queued(m.queues)
            &&& s.current matches Some(c) && c < THREADS_NUMOF && m.state(c as int) is Running
                && forall|p: int| 0 <= p < THREADS_NUMOF && #[trigger] m.state(p) is Running
                    ==> m.prio(p) <= m.prio(c as int)
            &&& s.threads == m.threads
            &&& s.queues == m.queues
            &&& s.blocklist == m.blocklist
        }),
{
    m.lemma_next_is_runnable();
    let p = choose|p: int| 0 <= p < THREADS_NUMOF && #[trigger] m.state(p) is Running;
    assert(m.state(p) is Running);
}

} // verus!

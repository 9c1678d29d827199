use vstd::prelude::*;
use critical_section::CriticalSection;

use crate::threadlist::{ThreadList, head_of};
use crate::{ThreadId, ThreadState, Threads, ThreadsModel};

verus! {

/// A lock that threads take in turn. A thread that finds it taken waits in its list until
/// the holder releases it to them.
pub struct Lock {
    state: LockState,
}

enum LockState {
    Unlocked,
    Locked(ThreadList),
}

impl Lock {
    /// Whether some thread holds the lock.
    pub closed spec fn locked(&self) -> bool {
        self.state is Locked
    }

    /// The threads that wait for the lock, the one that came last first.
    pub closed spec fn waiters(&self) -> Seq<ThreadId> {
        match self.state {
            LockState::Unlocked => Seq::empty(),
            LockState::Locked(list) => list@,
        }
    }

    /// The list of waiters is well-formed.
    pub closed spec fn wf(&self) -> bool {
        match self.state {
            LockState::Unlocked => true,
            LockState::Locked(list) => list.wf(),
        }
    }

    /// The list of waiters is the one that the links of `t` spell out.
    pub closed spec fn wf_in(&self, t: ThreadsModel) -> bool {
        match self.state {
            LockState::Unlocked => true,
            LockState::Locked(list) => list.wf_in(t),
        }
    }

    /// The waiters of a well-formed lock are distinct.
    pub proof fn lemma_waiters(&self, t: ThreadsModel)
        requires
            self.wf_in(t),
        ensures
            forall|i: int, j: int|
                0 <= i < j < self.waiters().len() ==> #[trigger] self.waiters()[i] != #[trigger] self.waiters()[j],
    {
        if let LockState::Locked(list) = self.state {
            list.lemma_wf_in(t);
            list.lemma_members();
        }
    }

    /// The lock's waiters match any table whose links agree on them.
    pub proof fn lemma_frame(&self, t: ThreadsModel, t2: ThreadsModel)
        requires
            self.wf_in(t),
            forall|i: int| 0 <= i < self.waiters().len() ==> t2.blocklist[#[trigger] self.waiters()[i] as int]
                == t.blocklist[self.waiters()[i] as int],
        ensures
            self.wf_in(t2),
    {
        if let LockState::Locked(list) = self.state {
            assert forall|i: int| 0 <= i < list@.len() implies t2.blocklist[#[trigger] list@[i] as int]
                == t.blocklist[list@[i] as int] by {
                assert(self.waiters()[i] == list@[i]);
            }
            list.lemma_frame(t, t2);
        }
    }

    /// The waiter that `release` would wake: the one that came last.
    pub fn first_waiter(&self) -> (r: Option<ThreadId>)
        requires
            self.wf(),
        ensures
            r == head_of(self.waiters()),
    {
        match &self.state {
            LockState::Unlocked => None,
            LockState::Locked(list) => list.head(),
        }
    }

    /// Whether thread `pid` waits for the lock.
    pub fn is_waiting(&self, threads: &Threads, pid: ThreadId) -> (r: bool)
        requires
            threads.wf(),
            self.wf_in(threads@),
        ensures
            r == self.waiters().contains(pid),
    {
        match &self.state {
            LockState::Unlocked => false,
            LockState::Locked(list) => list.contains(threads, pid),
        }
    }

    pub fn new() -> (r: Self)
        ensures
            !r.locked(),
            r.waiters() == Seq::<ThreadId>::empty(),
            r.wf(),
            forall|t: ThreadsModel| #[trigger] r.wf_in(t),
    {
        Self { state: LockState::Unlocked }
    }

    pub fn new_locked() -> (r: Self)
        ensures
            r.locked(),
            r.waiters() == Seq::<ThreadId>::empty(),
            r.wf(),
            forall|t: ThreadsModel| #[trigger] r.wf_in(t),
    {
        Self { state: LockState::Locked(ThreadList::new()) }
    }

    pub fn is_locked(&self) -> (r: bool)
        ensures
            r == self.locked(),
    {
        match self.state {
            LockState::Unlocked => false,
            _ => true,
        }
    }

    /// Takes the lock if it is free. Returns whether it did; a taken lock is left alone.
    pub fn try_acquire(&mut self) -> (r: bool)
        ensures
            r == !old(self).locked(),
            final(self).locked(),
            r ==> final(self).waiters() == Seq::<ThreadId>::empty() && final(self).wf()
                && forall|t: ThreadsModel| #[trigger] final(self).wf_in(t),
            !r ==> *final(self) == *old(self),
    {
        match self.state {
            LockState::Unlocked => {
                self.state = LockState::Locked(ThreadList::new());
                true
            },
            LockState::Locked(_) => false,
        }
    }

    /// Takes the lock for the current thread. A free lock is taken at once (`false`: no need
    /// to wait). Otherwise the current thread joins the waiters as `LockBlocked` and `true`
    /// is returned: the caller triggers the scheduler, and the thread holds the lock once it
    /// runs again (`release` hands it over).
    pub fn acquire(&mut self, cs: CriticalSection, threads: &mut Threads) -> (must_wait: bool)
        requires
            old(threads).wf(),
            old(self).wf_in(old(threads)@),
            old(self).locked() ==> (old(threads)@.current matches Some(c) && !old(self).waiters().contains(c)
                && old(threads)@.can_set_state(c as int, ThreadState::LockBlocked)),
        ensures
            must_wait == old(self).locked(),
            final(self).locked(),
            final(threads).wf(),
            final(self).wf_in(final(threads)@),
            !must_wait ==> final(self).waiters() == Seq::<ThreadId>::empty() && final(threads)@ == old(threads)@,
            must_wait ==> {
                let c = old(threads)@.current->0;
                &&& final(self).waiters() == seq![c].add(old(self).waiters())
                &&& final(threads)@ == old(threads)@.with_blocked_next(
                    c as int,
                    head_of(old(self).waiters()),
                ).with_state(c as int, ThreadState::LockBlocked)
            },
    {
        let mut state = LockState::Unlocked;
        core::mem::swap(&mut state, &mut self.state);
        match state {
            LockState::Unlocked => {
                self.state = LockState::Locked(ThreadList::new());
                false
            },
            LockState::Locked(waiters) => {
                let mut waiters = waiters;
                waiters.put_current(cs, threads, ThreadState::LockBlocked);
                self.state = LockState::Locked(waiters);
                true
            },
        }
    }

    /// Releases the lock. The waiter that came last, if any, is made runnable and holds the
    /// lock from now on; its id is returned and the caller triggers the scheduler. With no
    /// waiter the lock becomes free. Releasing a free lock does nothing.
    pub fn release(&mut self, cs: CriticalSection, threads: &mut Threads) -> (woken: Option<ThreadId>)
        requires
            old(threads).wf(),
            old(self).wf_in(old(threads)@),
            old(self).waiters().len() > 0 ==> old(threads)@.can_set_state(
                old(self).waiters()[0] as int,
                ThreadState::Running,
            ),
        ensures
            final(threads).wf(),
            final(self).wf_in(final(threads)@),
            final(self).locked() == (old(self).locked() && old(self).waiters().len() > 0),
            woken matches Some(h) ==> !final(self).waiters().contains(h),
            !old(self).locked() ==> woken is None && *final(self) == *old(self) && final(threads)@
                == old(threads)@,
            old(self).locked() && old(self).waiters().len() == 0 ==> woken is None && !final(self).locked()
                && final(threads)@ == old(threads)@,
            old(self).locked() && old(self).waiters().len() > 0 ==> {
                let h = old(self).waiters()[0];
                &&& woken == Some(h)
                &&& final(self).locked()
                &&& final(self).waiters() == old(self).waiters().drop_first()
                &&& final(threads)@ == old(threads)@.with_blocked_next(h as int, None).with_state(
                    h as int,
                    ThreadState::Running,
                )
            },
    {
        let mut state = LockState::Unlocked;
        core::mem::swap(&mut state, &mut self.state);
        match state {
            LockState::Unlocked => None,
            LockState::Locked(waiters) => {
                let mut waiters = waiters;
                let ghost before = waiters@;
                if let Some((thread_id, _)) = waiters.pop(cs, threads) {
                    proof {
                        old(self).lemma_waiters(old(threads)@);
                        assert forall|i: int| 0 <= i < waiters@.len() implies waiters@[i] != thread_id by {
                            assert(waiters@[i] == before[i + 1]);
                            assert(before[0] != before[i + 1]);
                        }
                    }
                    self.state = LockState::Locked(waiters);
                    Some(thread_id)
                } else {
                    None
                }
            },
        }
    }
}

} // verus!

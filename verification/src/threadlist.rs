use vstd::prelude::*;
use critical_section::CriticalSection;

use crate::{ThreadId, ThreadState, Threads, ThreadsModel, THREADS_NUMOF};

verus! {

/// The first of `m`, if any.
pub open spec fn head_of(m: Seq<ThreadId>) -> Option<ThreadId> {
    if m.len() == 0 {
        None
    } else {
        Some(m[0])
    }
}

/// A list of waiting threads, most recently added first. The links between its members are
/// kept in the thread table (`Threads`), one per thread.
pub struct ThreadList {
    pub(crate) head: Option<ThreadId>,
    members: Ghost<Seq<ThreadId>>,
}

impl ThreadList {
    /// The threads in the list, head first.
    pub closed spec fn view(&self) -> Seq<ThreadId> {
        self.members@
    }

    /// The list holds distinct thread ids and starts at its head.
    pub closed spec fn wf(&self) -> bool {
        let m = self.members@;
        &&& forall|i: int| 0 <= i < m.len() ==> #[trigger] m[i] < THREADS_NUMOF
        &&& forall|i: int, j: int| 0 <= i < j < m.len() ==> #[trigger] m[i] != #[trigger] m[j]
        &&& self.head == head_of(m)
    }

    /// The list is what the links of `t` spell out from its head: each member linked to the
    /// next, the last linked to nothing.
    pub closed spec fn wf_in(&self, t: ThreadsModel) -> bool {
        let m = self.members@;
        &&& self.wf()
        &&& forall|i: int| 0 <= i < m.len() - 1 ==> t.blocklist[#[trigger] m[i] as int] == Some(m[i + 1])
        &&& m.len() > 0 ==> t.blocklist[m.last() as int] is None
    }

    /// Creates a new empty`ThreadList`
    pub fn new() -> (r: Self)
        ensures
            r@ == Seq::<ThreadId>::empty(),
            r.wf(),
            forall|t: ThreadsModel| #[trigger] r.wf_in(t),
    {
        ThreadList { head: None, members: Ghost(Seq::empty()) }
    }

    /// Puts the current thread into this `ThreadList`, at its head, and gives it `state`.
    /// The caller then triggers the scheduler.
    pub fn put_current(&mut self, cs: CriticalSection, threads: &mut Threads, state: ThreadState)
        requires
            old(threads).wf(),
            old(self).wf_in(old(threads)@),
            old(threads)@.current matches Some(c) && !old(self)@.contains(c)
                && old(threads)@.can_set_state(c as int, state),
        ensures
            final(threads).wf(),
            final(self).wf_in(final(threads)@),
            final(self)@ == seq![old(threads)@.current->0].add(old(self)@),
            final(threads)@ == old(threads)@.with_blocked_next(
                old(threads)@.current->0 as int,
                head_of(old(self)@),
            ).with_state(old(threads)@.current->0 as int, state),
    {
        let thread_id = threads.current_pid().unwrap();
        let ghost before = threads@;
        threads.set_blocked_next(thread_id, self.head);
        self.head = Some(thread_id);
        proof {
            let m = self.members@;
            self.members = Ghost(seq![thread_id].add(m));
            assert(self.members@[0] == thread_id);
            assert forall|i: int| 0 <= i < self.members@.len() - 1
                implies threads@.blocklist[#[trigger] self.members@[i] as int] == Some(self.members@[i + 1]) by {
                if i > 0 {
                    assert(self.members@[i] == m[i - 1]);
                    assert(m[i - 1] != thread_id);
                }
            }
            assert forall|i: int, j: int| 0 <= i < j < self.members@.len()
                implies #[trigger] self.members@[i] != #[trigger] self.members@[j] by {
                if i == 0 {
                    assert(self.members@[j] == m[j - 1]);
                } else {
                    assert(self.members@[i] == m[i - 1]);
                    assert(self.members@[j] == m[j - 1]);
                }
            }
        }
        threads.set_state(thread_id, state);
    }

    /// Removes the head from this `ThreadList`
    ///
    /// Sets the thread's `ThreadState` to `ThreadState::Running`; the caller then triggers
    /// the scheduler.
    ///
    /// Returns the thread's `ThreadId` and it's previous `ThreadState`.
    pub fn pop(&mut self, cs: CriticalSection, threads: &mut Threads) -> (r: Option<(ThreadId, ThreadState)>)
        requires
            old(threads).wf(),
            old(self).wf_in(old(threads)@),
            old(self)@.len() > 0 ==> old(threads)@.can_set_state(
                old(self)@[0] as int,
                ThreadState::Running,
            ),
        ensures
            final(threads).wf(),
            final(self).wf_in(final(threads)@),
            old(self)@.len() == 0 ==> r is None && final(self)@ == old(self)@ && final(threads)@
                == old(threads)@,
            old(self)@.len() > 0 ==> {
                let h = old(self)@[0];
                &&& r == Some((h, old(threads)@.state(h as int)))
                &&& final(self)@ == old(self)@.drop_first()
                &&& final(threads)@ == old(threads)@.with_blocked_next(h as int, None).with_state(
                    h as int,
                    ThreadState::Running,
                )
            },
    {
        if let Some(head) = self.head {
            let ghost m = self.members@;
            self.head = threads.take_blocked_next(head);
            let old_state = threads.set_state(head, ThreadState::Running);
            proof {
                self.members = Ghost(m.drop_first());
                assert forall|i: int| 0 <= i < self.members@.len() - 1
                    implies threads@.blocklist[#[trigger] self.members@[i] as int] == Some(self.members@[i + 1]) by {
                    assert(self.members@[i] == m[i + 1]);
                    assert(m[i + 1] != head);
                }
                assert forall|i: int, j: int| 0 <= i < j < self.members@.len()
                    implies #[trigger] self.members@[i] != #[trigger] self.members@[j] by {
                    assert(self.members@[i] == m[i + 1]);
                    assert(self.members@[j] == m[j + 1]);
                }
                if self.members@.len() > 0 {
                    assert(m.last() != head);
                    assert(self.members@.last() == m.last());
                }
            }
            Some((head, old_state))
        } else {
            None
        }
    }

    /// The first thread of the list, the one that `pop` removes.
    pub fn head(&self) -> (r: Option<ThreadId>)
        requires
            self.wf(),
        ensures
            r == head_of(self@),
    {
        self.head
    }

    /// The list matches any table whose links agree on its members.
    pub proof fn lemma_frame(&self, t: ThreadsModel, t2: ThreadsModel)
        requires
            self.wf_in(t),
            forall|i: int| 0 <= i < self@.len() ==> t2.blocklist[#[trigger] self@[i] as int]
                == t.blocklist[self@[i] as int],
        ensures
            self.wf_in(t2),
    {
        let m = self@;
        assert forall|i: int| 0 <= i < m.len() - 1 implies t2.blocklist[#[trigger] m[i] as int] == Some(m[i + 1]) by {
            assert(t2.blocklist[self@[i] as int] == t.blocklist[self@[i] as int]);
        }
        if m.len() > 0 {
            assert(t2.blocklist[self@[m.len() - 1] as int] == t.blocklist[self@[m.len() - 1] as int]);
        }
    }

    /// Whether thread `pid` is in the list, found by following the links from the head.
    pub fn contains(&self, threads: &Threads, pid: ThreadId) -> (r: bool)
        requires
            threads.wf(),
            self.wf_in(threads@),
        ensures
            r == self@.contains(pid),
    {
        let ghost m = self.members@;
        let mut cur = self.head;
        let ghost mut i: int = 0;
        while cur.is_some()
            invariant
                self.wf_in(threads@),
                m == self.members@,
                0 <= i <= m.len(),
                cur == (if i < m.len() { Some(m[i]) } else { None::<ThreadId> }),
                forall|j: int| 0 <= j < i ==> m[j] != pid,
            decreases m.len() - i,
        {
            let t = cur.unwrap();
            if t == pid {
                assert(m[i] == pid);
                return true;
            }
            cur = threads.blocked_next(t);
            proof {
                i = i + 1;
            }
        }
        assert forall|j: int| 0 <= j < m.len() implies m[j] != pid by {}
        false
    }

    /// A list that matches some links is well-formed.
    pub proof fn lemma_wf_in(&self, t: ThreadsModel)
        requires
            self.wf_in(t),
        ensures
            self.wf(),
    {
    }

    /// A well-formed list holds distinct thread ids, each naming a slot.
    pub proof fn lemma_members(&self)
        requires
            self.wf(),
        ensures
            forall|i: int| 0 <= i < self@.len() ==> #[trigger] self@[i] < THREADS_NUMOF,
            forall|i: int, j: int| 0 <= i < j < self@.len() ==> #[trigger] self@[i] != #[trigger] self@[j],
    {
    }

    /// Determines if this `ThreadList` is empty
    pub fn is_empty(&self, _cs: CriticalSection) -> (r: bool)
        requires
            self.wf(),
        ensures
            r == (self@.len() == 0),
    {
        self.head.is_none()
    }
}

} // verus!

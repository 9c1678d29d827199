pub mod runqueue;
pub mod arch;
mod critical;
pub mod ensure_once;
pub mod thread_flags;
pub mod threadlist;
pub mod lock;
pub mod thread;
pub mod laws;

use vstd::prelude::*;

pub use riot_rs_runqueue::{RunqueueId, ThreadId};
pub use ensure_once::EnsureOnce;
pub use thread_flags::{ThreadFlags, WaitMode};

use riot_rs_runqueue::RunQueue;
use critical_section::CriticalSection;
use crate::arch::cortex_m::{FRAME_OFFSET, initial_frame, overwrite, words_bytes};
use crate::runqueue::{
    queued, next_queued, is_queued, runqueue_new, runqueue_add, runqueue_del, runqueue_get_next,
    occupied, marks_match, top_occupied, offered, highest_head,
};

verus! {

/// global defining the number of possible priority levels
pub const SCHED_PRIO_LEVELS: usize = 8;

/// global defining the number of threads that can be created
pub const THREADS_NUMOF: usize = 8;

/// Possible states of a thread
#[derive(Copy, Clone, PartialEq, Eq, Structural, Debug)]
pub enum ThreadState {
    Invalid,
    Running,
    Paused,
    LockBlocked,
    FlagBlocked(WaitMode),
    ChannelRxBlocked(usize),
    ChannelTxBlocked(usize),
    Zombie,
}

/// Main struct for holding thread data
#[derive(Copy, Clone, Debug)]
pub struct Thread {
    pub sp: usize,
    pub high_regs: [usize; 8],
    pub state: ThreadState,
    pub prio: RunqueueId,
    pub pid: ThreadId,
    pub flags: ThreadFlags,
}

impl Thread {
    /// The callee-saved registers r4-r11 as last saved for this thread.
    pub open spec fn saved_regs(&self) -> Seq<usize> {
        self.high_regs@
    }

    /// Whether this is the thread that `Thread::default` gives.
    pub open spec fn is_default(&self) -> bool {
        &&& self.sp == 0
        &&& self.state == ThreadState::Invalid
        &&& self.prio == 0
        &&& self.pid == 0
        &&& self.flags == 0
        &&& self.saved_regs() == Seq::new(8, |i: int| 0usize)
    }

    /// This thread as `Threads::create` leaves it: with its stack pointer, priority and id
    /// set, and `Paused`.
    pub open spec fn created(self, sp: usize, prio: RunqueueId, pid: ThreadId) -> Thread {
        Thread { sp, prio, pid, state: ThreadState::Paused, ..self }
    }

    /// create a default Thread object
    pub fn default() -> (t: Thread)
        ensures
            t.is_default(),
    {
        let t = Thread { sp: 0, state: ThreadState::Invalid, high_regs: [0; 8], flags: 0, prio: 0, pid: 0 };
        assert(t.high_regs@ =~= Seq::new(8, |i: int| 0usize));
        t
    }

    /// Sets up stack for newly created threads.
    ///
    /// After running this, the stack should look as if the thread was
    /// interrupted by an ISR. On the next return, it starts executing
    /// `func`. See `arch::cortex_m::setup_stack`.
    pub fn setup_stack(stack: &mut [u8], stack_start: usize, func: usize, arg: usize, exit: usize) -> (sp: usize)
        requires
            old(stack)@.len() >= FRAME_OFFSET,
            stack_start + old(stack)@.len() <= usize::MAX,
        ensures
            sp == stack_start + old(stack)@.len() - FRAME_OFFSET,
            final(stack)@ == overwrite(
                old(stack)@,
                old(stack)@.len() - FRAME_OFFSET,
                words_bytes(initial_frame(func, arg, exit)),
            ),
    {
        arch::cortex_m::setup_stack(stack, stack_start, func, arg, exit)
    }
}

/// The scheduler's state as plain values.
pub struct ThreadsModel {
    pub threads: Seq<Thread>,
    pub blocklist: Seq<Option<ThreadId>>,
    pub current: Option<ThreadId>,
    pub queues: Seq<Seq<ThreadId>>,
}

impl ThreadsModel {
    pub open spec fn state(self, pid: int) -> ThreadState {
        self.threads[pid].state
    }

    pub open spec fn prio(self, pid: int) -> int {
        self.threads[pid].prio as int
    }

    /// Well-formed: the runqueue holds exactly the running threads, each once, in the queue
    /// of its priority.
    pub open spec fn wf(self) -> bool {
        &&& self.threads.len() == THREADS_NUMOF
        &&& self.blocklist.len() == THREADS_NUMOF
        &&& self.queues.len() == SCHED_PRIO_LEVELS
        &&& forall|p: int|
            0 <= p < THREADS_NUMOF && !(#[trigger] self.state(p) is Invalid) ==> self.threads[p].pid == p
        &&& forall|p: int|
            0 <= p < THREADS_NUMOF && #[trigger] self.state(p) is Running
                ==> self.prio(p) < SCHED_PRIO_LEVELS && self.queues[self.prio(p)].contains(p as ThreadId)
        &&& forall|q: int, i: int|
            0 <= q < SCHED_PRIO_LEVELS && 0 <= i < self.queues[q].len() ==> {
                let p = #[trigger] self.queues[q][i];
                &&& p < THREADS_NUMOF
                &&& self.state(p as int) is Running
                &&& self.prio(p as int) == q
            }
        &&& forall|q: int, i: int, j: int|
            0 <= q < SCHED_PRIO_LEVELS && 0 <= i < j < self.queues[q].len()
                ==> #[trigger] self.queues[q][i] != #[trigger] self.queues[q][j]
        &&& self.current matches Some(c) ==> c < THREADS_NUMOF
    }

    /// What `Threads::set_state` asks of its arguments: a slot that was never filled is only
    /// given a state with its own id in it, a thread only starts running with a priority that
    /// has a queue, and a running thread only leaves the runqueue from the head of its queue
    /// (the runqueue refuses to remove any other entry).
    pub open spec fn can_set_state(self, pid: int, state: ThreadState) -> bool {
        &&& 0 <= pid < THREADS_NUMOF
        &&& (self.state(pid) is Invalid && !(state is Invalid)) ==> self.threads[pid].pid == pid
        &&& (!(self.state(pid) is Running) && state is Running) ==> self.prio(pid) < SCHED_PRIO_LEVELS
        &&& (self.state(pid) is Running && !(state is Running)) ==> {
            &&& self.queues[self.prio(pid)].len() > 0
            &&& self.queues[self.prio(pid)][0] == pid
        }
    }

    /// A thread is current and may be given any state, as the scheduler leaves it: if it runs,
    /// it is the thread that the scheduler would pick (so it heads its queue); if it does not,
    /// its slot holds its own id and a priority that has a queue.
    pub open spec fn current_scheduled(self) -> bool {
        match self.current {
            None => false,
            Some(c) => if self.state(c as int) is Running {
                next_queued(self.queues) == Some(c)
            } else {
                self.threads[c as int].pid == c && self.prio(c as int) < SCHED_PRIO_LEVELS
            },
        }
    }

    /// The queues after thread `pid` goes from `old_state` to `state`: it joins the tail of
    /// its queue when it starts running and leaves the head when it stops.
    pub open spec fn queues_after(self, pid: int, state: ThreadState) -> Seq<Seq<ThreadId>> {
        let q = self.prio(pid);
        if !(self.state(pid) is Running) && state is Running {
            self.queues.update(q, self.queues[q].push(pid as ThreadId))
        } else if self.state(pid) is Running && !(state is Running) {
            self.queues.update(q, self.queues[q].drop_first())
        } else {
            self.queues
        }
    }

    /// A well-formed model holds no non-running thread in its queues.
    pub proof fn lemma_not_running_not_queued(self, pid: int)
        requires
            self.wf(),
            0 <= pid < THREADS_NUMOF,
            !(self.state(pid) is Running),
        ensures
            !is_queued(self.queues, pid as ThreadId),
            forall|q: int, i: int|
                0 <= q < SCHED_PRIO_LEVELS && 0 <= i < self.queues[q].len()
                    ==> #[trigger] self.queues[q][i] != pid,
    {
        assert forall|q: int| 0 <= q < 8 implies !(#[trigger] self.queues[q]).contains(pid as ThreadId) by {
            if self.queues[q].contains(pid as ThreadId) {
                let i = choose|i: int| 0 <= i < self.queues[q].len() && self.queues[q][i] == pid as ThreadId;
                assert(self.queues[q][i] == pid as ThreadId);
            }
        }
    }

    /// Changing one thread's state as `set_state` does keeps the model well-formed.
    pub proof fn lemma_with_state_wf(self, pid: int, state: ThreadState)
        requires
            self.wf(),
            self.can_set_state(pid, state),
        ensures
            self.with_state(pid, state).wf(),
    {
        let n = self.with_state(pid, state);
        let q0 = self.prio(pid);
        let was_running = self.state(pid) is Running;
        let runs = state is Running;
        if !was_running {
            self.lemma_not_running_not_queued(pid);
        }
        assert forall|p: int| 0 <= p < THREADS_NUMOF && !(#[trigger] n.state(p) is Invalid)
            implies n.threads[p].pid == p by {
            assert(n.threads[p].pid == self.threads[p].pid);
            if !(self.state(p) is Invalid) {
                assert(self.threads[p].pid == p);
            }
        }
        assert forall|p: int| 0 <= p < THREADS_NUMOF && #[trigger] n.state(p) is Running
            implies n.queues[n.prio(p)].contains(p as ThreadId) by {
            if p == pid {
                if !was_running {
                    assert(n.queues[q0].last() == pid as ThreadId);
                } else {
                    assert(n.queues[q0] == self.queues[q0]);
                }
            } else {
                assert(self.state(p) is Running);
                let q = self.prio(p);
                assert(self.queues[q].contains(p as ThreadId));
                let i = choose|i: int| 0 <= i < self.queues[q].len() && self.queues[q][i] == p as ThreadId;
                if q == q0 && !was_running && runs {
                    assert(n.queues[q][i] == p as ThreadId);
                } else if q == q0 && was_running && !runs {
                    assert(i != 0);
                    assert(n.queues[q][i - 1] == p as ThreadId);
                } else {
                    assert(n.queues[q][i] == p as ThreadId);
                }
            }
        }
        assert forall|q: int, i: int|
            0 <= q < SCHED_PRIO_LEVELS && 0 <= i < n.queues[q].len() implies {
                let p = #[trigger] n.queues[q][i];
                &&& p < THREADS_NUMOF
                &&& n.state(p as int) is Running
                &&& n.prio(p as int) == q
            } by {
            if q == q0 && !was_running && runs {
                if i < self.queues[q].len() {
                    assert(n.queues[q][i] == self.queues[q][i]);
                }
            } else if q == q0 && was_running && !runs {
                assert(n.queues[q][i] == self.queues[q][i + 1]);
                assert(self.queues[q][0] != self.queues[q][i + 1]);
            } else {
                assert(n.queues[q][i] == self.queues[q][i]);
            }
        }
        assert forall|q: int, i: int, j: int|
            0 <= q < SCHED_PRIO_LEVELS && 0 <= i < j < n.queues[q].len()
                implies #[trigger] n.queues[q][i] != #[trigger] n.queues[q][j] by {
            if q == q0 && !was_running && runs {
                if j < self.queues[q].len() {
                    assert(n.queues[q][j] == self.queues[q][j]);
                }
                assert(n.queues[q][i] == self.queues[q][i]);
            } else if q == q0 && was_running && !runs {
                assert(n.queues[q][i] == self.queues[q][i + 1]);
                assert(n.queues[q][j] == self.queues[q][j + 1]);
            } else {
                assert(n.queues[q][i] == self.queues[q][i]);
                assert(n.queues[q][j] == self.queues[q][j]);
            }
        }
    }

    /// The first slot at or above `from` whose thread is `Invalid`.
    pub open spec fn first_unused_from(self, from: int) -> Option<ThreadId>
        decreases THREADS_NUMOF - from,
    {
        if from >= THREADS_NUMOF || from < 0 {
            None
        } else if self.state(from) is Invalid {
            Some(from as ThreadId)
        } else {
            self.first_unused_from(from + 1)
        }
    }

    /// The first slot whose thread is `Invalid`, if any.
    pub open spec fn first_unused(self) -> Option<ThreadId> {
        self.first_unused_from(0)
    }

    /// Scanning from `k` finds what scanning from `i` finds when no slot in between is
    /// `Invalid`.
    proof fn lemma_first_unused_skip(self, k: int, i: int)
        requires
            0 <= k <= i <= THREADS_NUMOF,
            forall|j: int| k <= j < i ==> !(#[trigger] self.state(j) is Invalid),
        ensures
            self.first_unused_from(k) == self.first_unused_from(i),
        decreases i - k,
    {
        if k < i {
            self.lemma_first_unused_skip(k + 1, i);
        }
    }

    /// `first_unused` is the lowest `Invalid` slot, and `None` only when no slot is `Invalid`.
    pub proof fn lemma_first_unused(self, i: int)
        requires
            0 <= i <= THREADS_NUMOF,
            forall|j: int| 0 <= j < i ==> !(#[trigger] self.state(j) is Invalid),
            i == THREADS_NUMOF || self.state(i) is Invalid,
        ensures
            i < THREADS_NUMOF ==> self.first_unused() == Some(i as ThreadId),
            i == THREADS_NUMOF ==> self.first_unused() is None,
    {
        self.lemma_first_unused_skip(0, i);
    }

    /// Filling an unused slot as `create` does keeps the model well-formed.
    pub proof fn lemma_create_wf(self, pid: int, sp: usize, prio: RunqueueId)
        requires
            self.wf(),
            0 <= pid < THREADS_NUMOF,
            self.state(pid) is Invalid,
        ensures
            self.with_thread(pid, self.threads[pid].created(sp, prio, pid as ThreadId)).wf(),
    {
        let n = self.with_thread(pid, self.threads[pid].created(sp, prio, pid as ThreadId));
        self.lemma_not_running_not_queued(pid);
        assert forall|p: int| 0 <= p < THREADS_NUMOF && !(#[trigger] n.state(p) is Invalid)
            implies n.threads[p].pid == p by {
            if p != pid {
                assert(self.threads[p] == n.threads[p]);
                assert(!(self.state(p) is Invalid));
            } else {
                assert(n.threads[p].pid == pid as ThreadId);
            }
        }
        assert forall|p: int| 0 <= p < THREADS_NUMOF && #[trigger] n.state(p) is Running
            implies n.queues[n.prio(p)].contains(p as ThreadId) by {
            assert(p != pid);
            assert(self.threads[p] == n.threads[p]);
            assert(self.state(p) is Running);
        }
        assert forall|q: int, i: int|
            0 <= q < SCHED_PRIO_LEVELS && 0 <= i < n.queues[q].len() implies {
                let p = #[trigger] n.queues[q][i];
                &&& p < THREADS_NUMOF
                &&& n.state(p as int) is Running
                &&& n.prio(p as int) == q
            } by {
            let p = n.queues[q][i];
            assert(p != pid);
            assert(self.threads[p as int] == n.threads[p as int]);
        }
    }

    /// The thread that the runqueue offers is a running thread, and none runs with a higher
    /// priority; when the runqueue offers none, no thread runs.
    pub proof fn lemma_next_is_runnable(self)
        requires
            self.wf(),
        ensures
            next_queued(self.queues) matches Some(n) ==> {
                &&& n < THREADS_NUMOF
                &&& self.state(n as int) is Running
                &&& self.queues[self.prio(n as int)][0] == n
                &&& forall|p: int|
                    0 <= p < THREADS_NUMOF && #[trigger] self.state(p) is Running
                        ==> self.prio(p) <= self.prio(n as int)
            },
            next_queued(self.queues) is None ==> forall|p: int|
                0 <= p < THREADS_NUMOF ==> !(#[trigger] self.state(p) is Running),
    {
        self.lemma_highest_head(8);
        if let Some(n) = next_queued(self.queues) {
            assert forall|p: int| 0 <= p < THREADS_NUMOF && #[trigger] self.state(p) is Running
                implies self.prio(p) <= self.prio(n as int) by {
                assert(self.queues[self.prio(p)].contains(p as ThreadId));
            }
        } else {
            assert forall|p: int| 0 <= p < THREADS_NUMOF implies !(#[trigger] self.state(p) is Running) by {
                if self.state(p) is Running {
                    assert(self.queues[self.prio(p)].contains(p as ThreadId));
                }
            }
        }
    }

    /// `highest_head(queues, below)` is the head of the highest non-empty queue below `below`.
    proof fn lemma_highest_head(self, below: int)
        requires
            self.wf(),
            0 <= below <= SCHED_PRIO_LEVELS,
        ensures
            crate::runqueue::highest_head(self.queues, below) matches Some(n) ==> exists|q: int|
                #![trigger self.queues[q]]
                0 <= q < below && self.queues[q].len() > 0 && self.queues[q][0] == n
                    && forall|r: int| q < r < below ==> #[trigger] self.queues[r].len() == 0,
            crate::runqueue::highest_head(self.queues, below) is None ==> forall|q: int|
                0 <= q < below ==> #[trigger] self.queues[q].len() == 0,
        decreases below,
    {
        if below > 0 {
            self.lemma_highest_head(below - 1);
        }
    }

    /// Well-formedness only looks at the threads, the queues, the length of the blocklist
    /// and the range of the current id.
    pub proof fn lemma_wf_frame(self, n: ThreadsModel)
        requires
            self.wf(),
            n.threads == self.threads,
            n.queues == self.queues,
            n.blocklist.len() == THREADS_NUMOF,
            n.current matches Some(c) ==> c < THREADS_NUMOF,
        ensures
            n.wf(),
    {
        assert forall|p: int| 0 <= p < THREADS_NUMOF && !(#[trigger] n.state(p) is Invalid)
            implies n.threads[p].pid == p by {
            assert(!(self.state(p) is Invalid));
        }
        assert forall|p: int| 0 <= p < THREADS_NUMOF && #[trigger] n.state(p) is Running
            implies n.queues[n.prio(p)].contains(p as ThreadId) by {
            assert(self.state(p) is Running);
        }
        assert forall|q: int, i: int|
            0 <= q < SCHED_PRIO_LEVELS && 0 <= i < n.queues[q].len() implies {
                let p = #[trigger] n.queues[q][i];
                &&& p < THREADS_NUMOF
                &&& n.state(p as int) is Running
                &&& n.prio(p as int) == q
            } by {
            let p = self.queues[q][i];
            assert(self.state(p as int) is Running);
        }
    }

    /// Making another thread current keeps the model well-formed.
    pub proof fn lemma_current_wf(self, c: ThreadId)
        requires
            self.wf(),
            c < THREADS_NUMOF,
        ensures
            (ThreadsModel { current: Some(c), ..self }).wf(),
    {
        self.lemma_wf_frame(ThreadsModel { current: Some(c), ..self });
    }

    /// The model with the blocklist entry of `pid` set to `next`.
    pub open spec fn with_blocked_next(self, pid: int, next: Option<ThreadId>) -> ThreadsModel {
        ThreadsModel { blocklist: self.blocklist.update(pid, next), ..self }
    }

    /// Giving one thread a new saved stack pointer keeps the model well-formed.
    pub proof fn lemma_sp_update_wf(self, pid: int, sp: usize)
        requires
            self.wf(),
            0 <= pid < THREADS_NUMOF,
        ensures
            self.with_thread(pid, Thread { sp, ..self.threads[pid] }).wf(),
    {
        let n = self.with_thread(pid, Thread { sp, ..self.threads[pid] });
        assert forall|p: int| 0 <= p < THREADS_NUMOF implies #[trigger] n.threads[p].state == self.threads[p].state
            && n.threads[p].prio == self.threads[p].prio && n.threads[p].pid == self.threads[p].pid by {}
        assert forall|p: int| 0 <= p < THREADS_NUMOF && !(#[trigger] n.state(p) is Invalid)
            implies n.threads[p].pid == p by {
            assert(n.threads[p].pid == self.threads[p].pid);
            assert(!(self.state(p) is Invalid));
        }
        assert forall|p: int| 0 <= p < THREADS_NUMOF && #[trigger] n.state(p) is Running
            implies n.queues[n.prio(p)].contains(p as ThreadId) by {
            assert(n.threads[p].prio == self.threads[p].prio);
            assert(self.state(p) is Running);
        }
        assert forall|q: int, i: int|
            0 <= q < SCHED_PRIO_LEVELS && 0 <= i < n.queues[q].len() implies {
                let p = #[trigger] n.queues[q][i];
                &&& p < THREADS_NUMOF
                &&& n.state(p as int) is Running
                &&& n.prio(p as int) == q
            } by {
            let p = n.queues[q][i];
            assert(n.threads[p as int].state == self.threads[p as int].state);
        }
    }

    /// The model with thread `pid` replaced by `t`.
    pub open spec fn with_thread(self, pid: int, t: Thread) -> ThreadsModel {
        ThreadsModel { threads: self.threads.update(pid, t), ..self }
    }

    /// The model after `set_state(pid, state)`.
    pub open spec fn with_state(self, pid: int, state: ThreadState) -> ThreadsModel {
        ThreadsModel {
            threads: self.threads.update(pid, Thread { state, ..self.threads[pid] }),
            blocklist: self.blocklist,
            current: self.current,
            queues: self.queues_after(pid, state),
        }
    }
}

pub struct Threads {
    /// global thread runqueue
    runqueue: RunQueue<8, 8>,
    threads: [Thread; 8],
    thread_blocklist: [Option<ThreadId>; 8],
    current_thread: Option<ThreadId>,
}

impl View for Threads {
    type V = ThreadsModel;

    closed spec fn view(&self) -> ThreadsModel {
        ThreadsModel {
            threads: self.threads@,
            blocklist: self.thread_blocklist@,
            current: self.current_thread,
            queues: queued(self.runqueue),
        }
    }
}

impl Threads {
    /// Well-formed: the model is, and the runqueue's marks agree with its queues.
    pub closed spec fn wf(&self) -> bool {
        &&& self@.wf()
        &&& marks_match(self.runqueue)
    }

    /// A well-formed table has a well-formed model.
    pub proof fn lemma_wf(&self)
        requires
            self.wf(),
        ensures
            self@.wf(),
    {
    }

    pub fn new() -> (r: Self)
        ensures
            r.wf(),
            forall|p: int| 0 <= p < THREADS_NUMOF ==> #[trigger] r@.threads[p].is_default(),
            r@.blocklist == Seq::new(8, |i: int| None::<ThreadId>),
            r@.current is None,
            r@.queues == Seq::new(8, |q: int| Seq::<ThreadId>::empty()),
    {
        let t = Thread::default();
        let r = Self {
            runqueue: runqueue_new(),
            threads: [t; 8],
            thread_blocklist: [None; 8],
            current_thread: None,
        };
        assert(r@.blocklist =~= Seq::new(8, |i: int| None::<ThreadId>));
        r
    }

    pub fn by_pid_unckecked(&mut self, thread_id: ThreadId) -> (t: &mut Thread)
        requires
            thread_id < THREADS_NUMOF,
        ensures
            *t == old(self)@.threads[thread_id as int],
            final(self)@ == old(self)@.with_thread(thread_id as int, *final(t)),
    {
        &mut self.threads[thread_id as usize]
    }

    /// The thread that runs now, if any, to be changed in place.
    pub fn current(&mut self) -> (t: Option<&mut Thread>)
        requires
            old(self).wf(),
        ensures
            old(self)@.current is None ==> t is None && final(self)@ == old(self)@,
            old(self)@.current matches Some(c) ==> {
                &&& t matches Some(r)
                &&& *r == old(self)@.threads[c as int]
                &&& final(self)@ == old(self)@.with_thread(c as int, *final(r))
            },
    {
        match self.current_thread {
            Some(tid) => Some(&mut self.threads[tid as usize]),
            None => None,
        }
    }

    pub fn current_pid(&self) -> (pid: Option<ThreadId>)
        ensures
            pid == self@.current,
    {
        self.current_thread
    }

    /// The thread that the scheduler would pick next: the head of the highest non-empty
    /// queue.
    pub fn next_pid(&self) -> (pid: Option<ThreadId>)
        requires
            self.wf(),
        ensures
            pid == next_queued(self@.queues),
    {
        proof {
            crate::runqueue::lemma_offered(self.runqueue);
        }
        runqueue_get_next(&self.runqueue)
    }

    /// Whether the current thread may be given any state now (`ThreadsModel::current_scheduled`).
    /// A running thread that heads a queue below the one the scheduler would pick also may,
    /// but the runqueue does not tell; this answers `false` for it.
    pub fn current_can_leave(&self) -> (r: bool)
        requires
            self.wf(),
        ensures
            r == self@.current_scheduled(),
            r ==> (self@.current matches Some(c) && forall|s: ThreadState| #[trigger] self@.can_set_state(
                c as int,
                s,
            )),
    {
        match self.current_thread {
            None => false,
            Some(c) => {
                if self.threads[c as usize].state == ThreadState::Running {
                    proof {
                        self@.lemma_next_is_runnable();
                    }
                    match self.next_pid() {
                        Some(n) => n == c,
                        None => false,
                    }
                } else {
                    self.threads[c as usize].pid == c
                        && (self.threads[c as usize].prio as usize) < SCHED_PRIO_LEVELS
                }
            },
        }
    }

    /// Create a new thread in the first unused slot, with its stack set up to start `func`
    /// with `arg`, and in the `Paused` state. Returns its id, or `None` when every slot is
    /// taken (the stack is then left alone). The stack must have room for the initial frame
    /// only when a slot is free.
    pub fn create(
        &mut self,
        func: usize,
        arg: usize,
        stack: &mut [u8],
        stack_start: usize,
        exit: usize,
        prio: u8,
    ) -> (pid: Option<ThreadId>)
        requires
            old(self).wf(),
            old(self)@.first_unused() is Some ==> old(stack)@.len() >= FRAME_OFFSET
                && stack_start + old(stack)@.len() <= usize::MAX,
        ensures
            final(self).wf(),
            pid == old(self)@.first_unused(),
            pid is None ==> final(self)@ == old(self)@ && final(stack)@ == old(stack)@,
            pid matches Some(p) ==> {
                &&& p < THREADS_NUMOF
                &&& old(self)@.state(p as int) is Invalid
                &&& final(self)@ == old(self)@.with_thread(
                    p as int,
                    old(self)@.threads[p as int].created(
                        (stack_start + old(stack)@.len() - FRAME_OFFSET) as usize,
                        prio,
                        p,
                    ),
                )
                &&& final(stack)@ == overwrite(
                    old(stack)@,
                    old(stack)@.len() - FRAME_OFFSET,
                    words_bytes(initial_frame(func, arg, exit)),
                )
            },
    {
        if let Some(pid) = self.get_unused() {
            proof {
                self@.lemma_create_wf(pid as int, (stack_start + stack@.len() - FRAME_OFFSET) as usize, prio);
            }
            let sp = Thread::setup_stack(stack, stack_start, func, arg, exit);
            let mut thread = self.threads[pid as usize];
            thread.sp = sp;
            thread.prio = prio;
            thread.pid = pid;
            thread.state = ThreadState::Paused;
            self.threads[pid as usize] = thread;
            Some(pid)
        } else {
            None
        }
    }

    pub fn get_unchecked(&self, thread_id: ThreadId) -> (t: &Thread)
        requires
            thread_id < THREADS_NUMOF,
        ensures
            *t == self@.threads[thread_id as int],
    {
        &self.threads[thread_id as usize]
    }

    fn get_unchecked_mut(&mut self, thread_id: ThreadId) -> (t: &mut Thread)
        requires
            thread_id < THREADS_NUMOF,
        ensures
            *t == old(self)@.threads[thread_id as int],
            final(self)@ == old(self)@.with_thread(thread_id as int, *final(t)),
    {
        &mut self.threads[thread_id as usize]
    }

    /// get an unused ThreadId / Thread slot: the first one whose state is `Invalid`
    pub fn get_unused(&self) -> (pid: Option<ThreadId>)
        requires
            self.wf(),
        ensures
            pid == self@.first_unused(),
            pid matches Some(p) ==> p < THREADS_NUMOF && self@.state(p as int) is Invalid,
    {
        let mut i: usize = 0;
        while i < THREADS_NUMOF
            invariant
                0 <= i <= THREADS_NUMOF,
                self.wf(),
                forall|j: int| 0 <= j < i ==> !(#[trigger] self@.state(j) is Invalid),
            decreases THREADS_NUMOF - i,
        {
            if self.threads[i].state == ThreadState::Invalid {
                proof {
                    self@.lemma_first_unused(i as int);
                }
                return Some(i as ThreadId);
            }
            i = i + 1;
        }
        proof {
            self@.lemma_first_unused(THREADS_NUMOF as int);
        }
        None
    }

    /// Whether thread `pid` may be made `Running` now: its slot holds its own id (unless it
    /// is in use) and a priority that has a queue, or it runs already.
    pub fn can_run(&self, pid: ThreadId) -> (r: bool)
        requires
            self.wf(),
        ensures
            r == self@.can_set_state(pid as int, ThreadState::Running),
    {
        if pid as usize >= THREADS_NUMOF {
            return false;
        }
        let t = &self.threads[pid as usize];
        match t.state {
            ThreadState::Running => true,
            ThreadState::Invalid => t.pid == pid && (t.prio as usize) < SCHED_PRIO_LEVELS,
            _ => (t.prio as usize) < SCHED_PRIO_LEVELS,
        }
    }

    /// The thread that follows `pid` in its list of waiting threads, if any.
    pub fn blocked_next(&self, pid: ThreadId) -> (next: Option<ThreadId>)
        requires
            pid < THREADS_NUMOF,
        ensures
            next == self@.blocklist[pid as int],
    {
        self.thread_blocklist[pid as usize]
    }

    /// Link thread `pid` to `next` in the lists of waiting threads.
    pub(crate) fn set_blocked_next(&mut self, pid: ThreadId, next: Option<ThreadId>)
        requires
            old(self).wf(),
            pid < THREADS_NUMOF,
        ensures
            final(self).wf(),
            final(self)@ == old(self)@.with_blocked_next(pid as int, next),
    {
        proof {
            self@.lemma_wf_frame(self@.with_blocked_next(pid as int, next));
        }
        self.thread_blocklist[pid as usize] = next;
        assert(self@ =~= old(self)@.with_blocked_next(pid as int, next));
    }

    /// Unlink thread `pid` from the lists of waiting threads, giving back what followed it.
    pub(crate) fn take_blocked_next(&mut self, pid: ThreadId) -> (next: Option<ThreadId>)
        requires
            old(self).wf(),
            pid < THREADS_NUMOF,
        ensures
            final(self).wf(),
            next == old(self)@.blocklist[pid as int],
            final(self)@ == old(self)@.with_blocked_next(pid as int, None),
    {
        let next = self.thread_blocklist[pid as usize];
        self.set_blocked_next(pid, None);
        next
    }

    /// set state of thread
    ///
    /// This function handles adding/removing the thread to the Runqueue depending
    /// on its previous or new state. Returns the previous state.
    pub fn set_state(&mut self, pid: ThreadId, state: ThreadState) -> (old_state: ThreadState)
        requires
            old(self).wf(),
            old(self)@.can_set_state(pid as int, state),
        ensures
            final(self).wf(),
            old_state == old(self)@.state(pid as int),
            final(self)@ == old(self)@.with_state(pid as int, state),
    {
        let ghost before = self@;
        let mut thread = self.threads[pid as usize];
        let old_state = thread.state;
        thread.state = state;
        self.threads[pid as usize] = thread;
        proof {
            before.lemma_with_state_wf(pid as int, state);
        }
        if old_state != ThreadState::Running && state == ThreadState::Running {
            proof {
                before.lemma_not_running_not_queued(pid as int);
            }
            runqueue_add(&mut self.runqueue, thread.pid, thread.prio);
        } else if old_state == ThreadState::Running && state != ThreadState::Running {
            runqueue_del(&mut self.runqueue, thread.pid, thread.prio);
        }
        proof {
            assert(self@.threads =~= before.with_state(pid as int, state).threads);
        }
        old_state
    }
}


/// What the scheduler decided, for the context switch that the PendSV handler performs.
#[derive(Copy, Clone, PartialEq, Eq, Structural, Debug)]
pub enum SchedDecision {
    /// No thread is runnable: let pending interrupts run, then ask again.
    Idle,
    /// The current thread is still the one to run: nothing is switched.
    Stay,
    /// Save the registers of `prev` and resume `next` from the stack pointer `next_sp`.
    Switch { prev: ThreadId, next: ThreadId, next_sp: usize },
    /// No thread is current: the handler switches nothing (`next` is what the runqueue offers).
    NoCurrent { next: ThreadId, next_sp: usize },
}

impl ThreadsModel {
    /// The scheduler's decision when the running thread was interrupted at `old_sp`.
    pub open spec fn sched_decision(self, old_sp: usize) -> SchedDecision {
        match next_queued(self.queues) {
            None => SchedDecision::Idle,
            Some(n) => match self.current {
                None => SchedDecision::NoCurrent { next: n, next_sp: self.threads[n as int].sp },
                Some(c) => if c == n {
                    SchedDecision::Stay
                } else {
                    SchedDecision::Switch { prev: c, next: n, next_sp: self.threads[n as int].sp }
                },
            },
        }
    }

    /// The model after the scheduler ran: on a switch, the interrupted thread keeps `old_sp`
    /// and the picked thread becomes current.
    pub open spec fn after_sched(self, old_sp: usize) -> ThreadsModel {
        match self.sched_decision(old_sp) {
            SchedDecision::Switch { prev, next, next_sp } => ThreadsModel {
                threads: self.threads.update(prev as int, Thread { sp: old_sp, ..self.threads[prev as int] }),
                current: Some(next),
                ..self
            },
            _ => self,
        }
    }

    /// The model after the first thread was started.
    pub open spec fn started(self) -> ThreadsModel {
        ThreadsModel { current: next_queued(self.queues), ..self }
    }
}

/// start threading
///
/// Supposed to be started early on by OS startup code: makes the thread that the runqueue
/// offers current and returns its stack pointer, from which the caller switches to it.
pub fn start_threading(threads: &mut EnsureOnce<Threads>) -> (next_sp: usize)
    requires
        old(threads).wf(),
        old(threads).value().wf(),
        next_queued(old(threads).value()@.queues) is Some,
    ensures
        final(threads).wf(),
        final(threads).value().wf(),
        final(threads).value()@ == old(threads).value()@.started(),
        next_sp == old(threads).value()@.threads[next_queued(old(threads).value()@.queues)->0 as int].sp,
        final(threads).value()@.current == next_queued(old(threads).value()@.queues),
        next_sp == final(threads).value()@.threads[final(threads).value()@.current->0 as int].sp,
        final(threads).value()@.threads == old(threads).value()@.threads,
        final(threads).value()@.queues == old(threads).value()@.queues,
        final(threads).value()@.blocklist == old(threads).value()@.blocklist,
{
    let ghost before = threads.value()@;
    let body = |t: Threads| -> (out: (Threads, usize))
        requires
            t.wf(),
            next_queued(t@.queues) is Some,
        ensures
            out.0.wf(),
            out.0@ == t@.started(),
            out.1 == t@.threads[next_queued(t@.queues)->0 as int].sp,
    {
        let mut t = t;
        let ghost before = t@;
        let next_pid = t.next_pid().unwrap();
        proof {
            before.lemma_next_is_runnable();
        }
        t.current_thread = Some(next_pid);
        let sp = t.threads[next_pid as usize].sp;
        assert(t@ =~= before.started());
        proof {
            before.lemma_current_wf(next_pid);
        }
        (t, sp)
    };
    threads.with_mut(body)
}

/// scheduler
///
/// Called from the PendSV handler with the stack pointer `old_sp` of the interrupted thread.
/// Picks the thread to run next and, when that is another thread, records `old_sp` for the
/// interrupted one and makes the picked one current.
pub fn sched(threads: &mut EnsureOnce<Threads>, cs: &CriticalSection, old_sp: usize) -> (d: SchedDecision)
    requires
        old(threads).wf(),
        old(threads).value().wf(),
    ensures
        final(threads).wf(),
        final(threads).value().wf(),
        d == old(threads).value()@.sched_decision(old_sp),
        final(threads).value()@ == old(threads).value()@.after_sched(old_sp),
        ({
            let m = old(threads).value()@;
            let f = final(threads).value()@;
            &&& (d is Idle <==> next_queued(m.queues) is None)
            &&& (d is Idle || d is Stay || d is NoCurrent) ==> f == m
            &&& d is NoCurrent ==> m.current is None
            &&& m.current is None && next_queued(m.queues) is Some ==> d == (SchedDecision::NoCurrent {
                next: next_queued(m.queues)->0,
                next_sp: m.threads[next_queued(m.queues)->0 as int].sp,
            })
            &&& m.current is Some && next_queued(m.queues) == m.current ==> d is Stay
            &&& m.current is Some && next_queued(m.queues) is Some && next_queued(m.queues) != m.current
                ==> {
                let c = m.current->0 as int;
                let n = next_queued(m.queues)->0;
                &&& d == (SchedDecision::Switch {
                    prev: c as ThreadId,
                    next: n,
                    next_sp: m.threads[n as int].sp,
                })
                &&& f.current == Some(n)
                &&& f.threads.len() == m.threads.len()
                &&& f.threads[c].sp == old_sp
                &&& f.threads[c].high_regs == m.threads[c].high_regs
                &&& f.threads[c].state == m.threads[c].state
                &&& f.threads[c].prio == m.threads[c].prio
                &&& f.threads[c].pid == m.threads[c].pid
                &&& f.threads[c].flags == m.threads[c].flags
                &&& forall|p: int| 0 <= p < m.threads.len() && p != c ==> #[trigger] f.threads[p] == m.threads[p]
                &&& f.queues == m.queues
                &&& f.blocklist == m.blocklist
            }
        }),
{
    let body = |t: Threads| -> (out: (Threads, SchedDecision))
        requires
            t.wf(),
        ensures
            out.0.wf(),
            out.1 == t@.sched_decision(old_sp),
            out.0@ == t@.after_sched(old_sp),
    {
        let mut t = t;
        let next_pid = match t.next_pid() {
            Some(pid) => pid,
            None => {
                return (t, SchedDecision::Idle);
            },
        };
        proof {
            t@.lemma_next_is_runnable();
        }
        match t.current_thread {
            Some(current_pid) => {
                if next_pid == current_pid {
                    return (t, SchedDecision::Stay);
                }
                let ghost before = t@;
                t.threads[current_pid as usize].sp = old_sp;
                t.current_thread = Some(next_pid);
                let next_sp = t.threads[next_pid as usize].sp;
                proof {
                    let mid = before.with_thread(
                        current_pid as int,
                        Thread { sp: old_sp, ..before.threads[current_pid as int] },
                    );
                    before.lemma_sp_update_wf(current_pid as int, old_sp);
                    assert(t@.threads =~= mid.threads);
                    assert(t@ =~= ThreadsModel { current: Some(next_pid), ..mid });
                    assert(mid.wf());
                    mid.lemma_current_wf(next_pid);
                }
                (t, SchedDecision::Switch { prev: current_pid, next: next_pid, next_sp })
            },
            None => {
                let next_sp = t.threads[next_pid as usize].sp;
                (t, SchedDecision::NoCurrent { next: next_pid, next_sp })
            },
        }
    };
    threads.with_mut_cs(cs, body)
}


/// trait for types that fit into a single register.
///
/// Implemented here for `usize` and `()`; users implement it for their own argument types
/// (a reference, for instance, is passed as its address).
pub trait Arguable {
    fn into_arg(self) -> usize;
}

impl Arguable for usize {
    fn into_arg(self) -> (r: usize)
        ensures
            r == self,
    {
        self
    }
}

impl Arguable for () {
    fn into_arg(self) -> (r: usize)
        ensures
            r == 0,
    {
        0
    }
}

impl ThreadsModel {
    /// The model after a thread was created in the first unused slot and made runnable.
    pub open spec fn after_create(self, sp: usize, prio: RunqueueId) -> ThreadsModel {
        let p = self.first_unused()->0;
        self.with_thread(p as int, self.threads[p as int].created(sp, prio, p)).with_state(
            p as int,
            ThreadState::Running,
        )
    }
}

/// Create a thread that runs `func` (the address of its function) with `arg`, on `stack`
/// (whose first byte is at address `stack_start`), and make it runnable. When `func`
/// returns, the thread continues at `exit`. The argument register holds what
/// `arg.into_arg()` returns; `thread_create_raw` takes that value directly.
pub fn thread_create<T: Arguable + Send>(
    threads: &mut Threads,
    func: usize,
    arg: T,
    stack: &mut [u8],
    stack_start: usize,
    exit: usize,
    prio: u8,
)
    requires
        old(threads).wf(),
        old(threads)@.first_unused() is Some,
        prio < SCHED_PRIO_LEVELS,
        old(stack)@.len() >= FRAME_OFFSET,
        stack_start + old(stack)@.len() <= usize::MAX,
    ensures
        final(threads).wf(),
        final(threads)@ == old(threads)@.after_create(
            (stack_start + old(stack)@.len() - FRAME_OFFSET) as usize,
            prio,
        ),
        exists|a: usize|
            #[trigger] call_ensures(T::into_arg, (arg,), a) && final(stack)@ == overwrite(
                old(stack)@,
                old(stack)@.len() - FRAME_OFFSET,
                words_bytes(initial_frame(func, a, exit)),
            ),
{
    let arg = arg.into_arg();
    thread_create_raw(threads, func, arg, stack, stack_start, exit, prio)
}

/// Create a thread from raw register values and make it runnable; see `thread_create`.
pub fn thread_create_raw(
    threads: &mut Threads,
    func: usize,
    arg: usize,
    stack: &mut [u8],
    stack_start: usize,
    exit: usize,
    prio: u8,
)
    requires
        old(threads).wf(),
        old(threads)@.first_unused() is Some,
        prio < SCHED_PRIO_LEVELS,
        old(stack)@.len() >= FRAME_OFFSET,
        stack_start + old(stack)@.len() <= usize::MAX,
    ensures
        final(threads).wf(),
        final(threads)@ == old(threads)@.after_create(
            (stack_start + old(stack)@.len() - FRAME_OFFSET) as usize,
            prio,
        ),
        final(stack)@ == overwrite(
            old(stack)@,
            old(stack)@.len() - FRAME_OFFSET,
            words_bytes(initial_frame(func, arg, exit)),
        ),
{
    let pid = threads.create(func, arg, stack, stack_start, exit, prio).unwrap();
    threads.set_state(pid, ThreadState::Running);
}

/// The thread that runs now, if any.
pub fn current_pid(threads: &EnsureOnce<Threads>) -> (pid: Option<ThreadId>)
    requires
        threads.wf(),
    ensures
        pid == threads.value()@.current,
{
    let body = |t: &Threads| -> (out: Option<ThreadId>)
        ensures
            out == t@.current,
    {
        t.current_pid()
    };
    threads.with(body)
}

/// thread cleanup function
///
/// What happens when a thread's function returns: the current thread's slot becomes unused.
/// Returns its id; the caller then triggers the scheduler.
pub fn cleanup(threads: &mut EnsureOnce<Threads>) -> (pid: ThreadId)
    requires
        old(threads).wf(),
        old(threads).value().wf(),
        old(threads).value()@.current is Some,
        old(threads).value()@.can_set_state(
            old(threads).value()@.current->0 as int,
            ThreadState::Invalid,
        ),
    ensures
        final(threads).wf(),
        final(threads).value().wf(),
        Some(pid) == old(threads).value()@.current,
        final(threads).value()@ == old(threads).value()@.with_state(pid as int, ThreadState::Invalid),
{
    let body = |t: Threads| -> (out: (Threads, ThreadId))
        requires
            t.wf(),
            t@.current is Some,
            t@.can_set_state(t@.current->0 as int, ThreadState::Invalid),
        ensures
            out.0.wf(),
            Some(out.1) == t@.current,
            out.0@ == t@.with_state(out.1 as int, ThreadState::Invalid),
    {
        let mut t = t;
        let thread_id = t.current_pid().unwrap();
        t.set_state(thread_id, ThreadState::Invalid);
        (t, thread_id)
    };
    threads.with_mut(body)
}

} // verus!

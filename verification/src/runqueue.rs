use vstd::prelude::*;
use riot_rs_runqueue::{RunQueue, RunqueueId, ThreadId};

verus! {

/// The scheduler's runqueue: `riot_rs_runqueue::RunQueue` with one queue per priority level
/// and room for every thread.
#[verifier::external_type_specification]
#[verifier::external_body]
pub struct ExRunQueue<const N_QUEUES: usize, const N_THREADS: usize>(
    RunQueue<N_QUEUES, N_THREADS>,
);

/// What a runqueue of the scheduler holds: for each priority level, the ids queued there,
/// head first.
pub uninterp spec fn queued(rq: RunQueue<8, 8>) -> Seq<Seq<ThreadId>>;

/// The priority levels that the runqueue marks as occupied (its bit cache): a level is
/// marked when an id is added to it and unmarked when its queue is emptied.
pub uninterp spec fn occupied(rq: RunQueue<8, 8>) -> Set<int>;

/// The marks agree with the queues: exactly the non-empty queues are marked.
pub open spec fn marks_match(rq: RunQueue<8, 8>) -> bool {
    forall|q: int| #[trigger] occupied(rq).contains(q) <==> 0 <= q < 8 && queued(rq)[q].len() > 0
}

/// The highest marked level below `below`, if any.
pub open spec fn top_occupied(occ: Set<int>, below: int) -> Option<int>
    decreases below,
{
    if below <= 0 {
        None
    } else if occ.contains(below - 1) {
        Some(below - 1)
    } else {
        top_occupied(occ, below - 1)
    }
}

/// What `get_next` offers: the head of the queue at the highest marked level, if that queue
/// has one.
pub open spec fn offered(queues: Seq<Seq<ThreadId>>, occ: Set<int>) -> Option<ThreadId> {
    match top_occupied(occ, 8) {
        None => None,
        Some(b) => if queues[b].len() > 0 {
            Some(queues[b][0])
        } else {
            None
        },
    }
}

/// The head of the non-empty queue with the highest index below `below`, if any.
pub open spec fn highest_head(queues: Seq<Seq<ThreadId>>, below: int) -> Option<ThreadId>
    decreases below,
{
    if below <= 0 {
        None
    } else if queues[below - 1].len() > 0 {
        Some(queues[below - 1][0])
    } else {
        highest_head(queues, below - 1)
    }
}

/// The thread that the runqueue offers next: the head of the highest non-empty queue.
pub open spec fn next_queued(queues: Seq<Seq<ThreadId>>) -> Option<ThreadId> {
    highest_head(queues, 8)
}

/// Whether `n` stands in any of the eight queues.
pub open spec fn is_queued(queues: Seq<Seq<ThreadId>>, n: ThreadId) -> bool {
    exists|q: int| 0 <= q < 8 && #[trigger] queues[q].contains(n)
}

/// When the marks agree with the queues, the marked levels lie below 8 and the runqueue
/// offers the head of the highest non-empty queue.
pub proof fn lemma_offered(rq: RunQueue<8, 8>)
    requires
        marks_match(rq),
    ensures
        forall|q: int| #[trigger] occupied(rq).contains(q) ==> 0 <= q < 8,
        offered(queued(rq), occupied(rq)) == next_queued(queued(rq)),
{
    lemma_top_occupied(rq, 8);
}

proof fn lemma_top_occupied(rq: RunQueue<8, 8>, below: int)
    requires
        marks_match(rq),
        0 <= below <= 8,
    ensures
        top_occupied(occupied(rq), below) matches Some(b) ==> 0 <= b < 8 && queued(rq)[b].len() > 0
            && highest_head(queued(rq), below) == Some(queued(rq)[b][0]),
        top_occupied(occupied(rq), below) is None ==> highest_head(queued(rq), below) is None,
    decreases below,
{
    if below > 0 {
        lemma_top_occupied(rq, below - 1);
        assert(occupied(rq).contains(below - 1) <==> queued(rq)[below - 1].len() > 0);
    }
}

/// `RunQueue::new`: every queue starts empty and no level is marked.
#[verifier::external_body]
pub(crate) fn runqueue_new() -> (r: RunQueue<8, 8>)
    ensures
        queued(r) == Seq::new(8, |q: int| Seq::<ThreadId>::empty()),
        occupied(r) == Set::<int>::empty(),
{
    RunQueue::new()
}

/// `RunQueue::add`: marks level `rq` and, when `n` is in no queue yet, appends it at the
/// tail of queue `rq`; an `n` that is already queued stays where it is.
#[verifier::external_body]
pub(crate) fn runqueue_add(rq: &mut RunQueue<8, 8>, n: ThreadId, q: RunqueueId)
    requires
        n < 8,
        q < 8,
    ensures
        occupied(*final(rq)) == occupied(*old(rq)).insert(q as int),
        queued(*final(rq)) == (if is_queued(queued(*old(rq)), n) {
            queued(*old(rq))
        } else {
            queued(*old(rq)).update(q as int, queued(*old(rq))[q as int].push(n))
        }),
{
    rq.add(n, q)
}

/// `RunQueue::del`: removes the head of queue `rq`, which must be `n` (the crate asserts it),
/// and unmarks the level when its queue is left empty.
#[verifier::external_body]
pub(crate) fn runqueue_del(rq: &mut RunQueue<8, 8>, n: ThreadId, q: RunqueueId)
    requires
        n < 8,
        q < 8,
        queued(*old(rq))[q as int].len() > 0,
        queued(*old(rq))[q as int][0] == n,
    ensures
        queued(*final(rq)) == queued(*old(rq)).update(
            q as int,
            queued(*old(rq))[q as int].drop_first(),
        ),
        occupied(*final(rq)) == (if queued(*old(rq))[q as int].len() == 1 {
            occupied(*old(rq)).remove(q as int)
        } else {
            occupied(*old(rq))
        }),
{
    rq.del(n, q)
}

/// `RunQueue::get_next`: the head of the queue at the highest marked level, or `None` when
/// no level is marked (or that queue is empty). Marks only ever name levels below 8, as `add`
/// only takes such levels.
#[verifier::external_body]
pub(crate) fn runqueue_get_next(rq: &RunQueue<8, 8>) -> (r: Option<ThreadId>)
    requires
        forall|q: int| #[trigger] occupied(*rq).contains(q) ==> 0 <= q < 8,
    ensures
        r == offered(queued(*rq), occupied(*rq)),
{
    rq.get_next()
}

} // verus!

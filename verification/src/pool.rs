//! The decisions of the two pools: how many workers they start, which task the
//! round-robin pool dispatches next, and when a pool has finished its work.
use vstd::prelude::*;
use crate::queue::TaskQueue;
use crate::round_robin::TaskMediator;
use crate::task::{Task, TaskKind};

verus! {

/// The quantum of the round-robin pool: 50 ms, in nanoseconds.
pub const QUANTA: u64 = 50_000_000;

/// The identifiers of `n_workers` workers: `1..=n_workers`.
pub fn worker_ids(n_workers: usize) -> (ids: Vec<usize>)
    ensures
        ids@.len() == n_workers,
        forall|i: int| 0 <= i < n_workers ==> #[trigger] ids@[i] == i + 1,
{
    let mut ids: Vec<usize> = Vec::new();
    let mut i: usize = 0;
    while i < n_workers
        invariant
            i <= n_workers,
            ids@.len() == i,
            forall|k: int| 0 <= k < i ==> #[trigger] ids@[k] == k + 1,
        decreases n_workers - i,
    {
        ids.push(i + 1);
        i = i + 1;
    }
    ids
}

/// The workers of the FIFO pool: `1..=n_workers`; a pool without workers is
/// refused (`None`).
pub fn fifo_worker_ids(n_workers: usize) -> (ids: Option<Vec<usize>>)
    ensures
        n_workers == 0 <==> ids is None,
        ids matches Some(v) ==> v@.len() == n_workers && forall|i: int|
            0 <= i < n_workers ==> #[trigger] v@[i] == i + 1,
{
    if n_workers == 0 {
        None
    } else {
        Some(worker_ids(n_workers))
    }
}

/// The mediator of every worker of the round-robin pool.
pub fn round_robin_mediator() -> (m: TaskMediator)
    ensures
        m.quanta == QUANTA,
{
    TaskMediator::new(QUANTA)
}

/// Whether the FIFO pool has finished: no task holds any load.
pub fn fifo_finished(load: usize) -> (done: bool)
    ensures
        done == (load == 0),
{
    load == 0
}

/// Whether the round-robin pool has finished: nothing is pending and no task
/// holds any load.
pub fn round_robin_finished(queue: &TaskQueue, load: usize) -> (done: bool)
    ensures
        done == (queue@ == Set::<Task>::empty() && load == 0),
{
    queue.is_empty() && load == 0
}

/// Queues a newly arrived task and takes out the task to dispatch next: one of
/// the highest priority among those pending, the new one included.
pub fn enqueue_and_select(queue: &mut TaskQueue, task: Task) -> (next: (Task, TaskKind))
    ensures
        old(queue)@.insert(task).contains(next.0),
        next.1 == next.0.kind,
        forall|other: Task| #[trigger]
            old(queue)@.insert(task).contains(other) ==> other.kind.spec_priority()
                <= next.1.spec_priority(),
        final(queue)@ == old(queue)@.insert(task).remove(next.0),
{
    queue.push(task);
    match queue.pop() {
        Some(next) => next,
        None => {
            assert(queue@.contains(task));
            assert(false);
            (task, task.kind)
        },
    }
}

} // verus!

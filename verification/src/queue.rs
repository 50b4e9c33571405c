//! The queue of pending tasks of the round-robin pool: a priority queue of the
//! `priority_queue` crate, keyed by the task and ordered by the task's kind.
use vstd::prelude::*;
use priority_queue::PriorityQueue;
use crate::task::{Task, TaskKind};

verus! {

#[verifier::external_type_specification]
#[verifier::external_body]
#[verifier::reject_recursive_types(I)]
#[verifier::reject_recursive_types(P)]
#[verifier::reject_recursive_types(H)]
pub struct ExPriorityQueue<I, P, H>(PriorityQueue<I, P, H>);

/// A task as the queue stores it: its fields as integers, the kind by its
/// priority (id, arrival time, kind priority, duration, time queued).
pub type TaskKey = (i32, i128, u8, u64, i128);

/// The priority queue that holds pending tasks by key.
pub type KeyQueue = PriorityQueue<TaskKey, u8>;

/// What a priority queue holds: each item with its priority.
pub uninterp spec fn pq_contents(q: KeyQueue) -> Map<TaskKey, u8>;

/// The contents of an empty queue.
pub open spec fn no_keys() -> Map<TaskKey, u8> {
    Map::empty()
}

/// `PriorityQueue::new`: the queue it makes is empty.
#[verifier::external_body]
fn pq_new() -> (q: KeyQueue)
    ensures
        pq_contents(q) == no_keys(),
{
    PriorityQueue::new()
}

/// `PriorityQueue::push`: the item is stored with the priority; when an equal
/// item was there, its priority is replaced and the old one comes back.
#[verifier::external_body]
fn pq_push(q: &mut KeyQueue, item: TaskKey, priority: u8) -> (previous: Option<u8>)
    ensures
        pq_contents(*final(q)) == pq_contents(*old(q)).insert(item, priority),
        previous == (if pq_contents(*old(q)).contains_key(item) {
            Some(pq_contents(*old(q))[item])
        } else {
            None::<u8>
        }),
{
    q.push(item, priority)
}

/// `PriorityQueue::pop`: on an empty queue `None`, and the queue stays empty;
/// otherwise an item of greatest priority, with its priority, leaves the queue.
/// Which of several items of equal priority leaves is not stated.
#[verifier::external_body]
fn pq_pop(q: &mut KeyQueue) -> (popped: Option<(TaskKey, u8)>)
    ensures
        match popped {
            None => {
                &&& pq_contents(*old(q)) == no_keys()
                &&& pq_contents(*final(q)) == pq_contents(*old(q))
            },
            Some((item, priority)) => {
                &&& pq_contents(*old(q)).contains_key(item)
                &&& pq_contents(*old(q))[item] == priority
                &&& forall|other: TaskKey| #[trigger]
                    pq_contents(*old(q)).contains_key(other) ==> pq_contents(*old(q))[other]
                        <= priority
                &&& pq_contents(*final(q)) == pq_contents(*old(q)).remove(item)
            },
        },
{
    q.pop()
}

/// `PriorityQueue::is_empty`: whether the queue holds nothing.
#[verifier::external_body]
fn pq_is_empty(q: &KeyQueue) -> (empty: bool)
    ensures
        empty == (pq_contents(*q) == no_keys()),
{
    q.is_empty()
}

/// The key under which the queue stores a task.
pub open spec fn key_of(task: Task) -> TaskKey {
    (task.id, task.arrival_time, task.kind.spec_priority(), task.duration, task.time_queued)
}

/// The task stored under a key, when the key's kind priority is a kind's.
pub open spec fn task_of(key: TaskKey) -> Task {
    Task {
        id: key.0,
        arrival_time: key.1,
        kind: TaskKind::spec_from_priority(key.2).unwrap(),
        duration: key.3,
        time_queued: key.4,
    }
}

/// Whether a key stands for a task: its kind priority is that of a kind.
pub open spec fn valid_key(key: TaskKey) -> bool {
    TaskKind::spec_from_priority(key.2) is Some
}

/// The pending tasks of the round-robin pool, ordered by kind: `CPU` tasks
/// before `IO` tasks.
pub struct TaskQueue {
    queue: KeyQueue,
}

impl TaskQueue {
    /// Every stored key stands for a task and is stored with its kind's priority.
    #[verifier::type_invariant]
    closed spec fn wf(&self) -> bool {
        forall|key: TaskKey| #[trigger]
            pq_contents(self.queue).contains_key(key) ==> valid_key(key) && pq_contents(
                self.queue,
            )[key] == key.2
    }

    /// The pending tasks.
    pub closed spec fn view(&self) -> Set<Task> {
        Set::new(|task: Task| pq_contents(self.queue).contains_key(key_of(task)))
    }

    proof fn lemma_key_roundtrip(task: Task)
        ensures
            valid_key(key_of(task)),
            task_of(key_of(task)) == task,
    {
    }

    proof fn lemma_key_injective(a: Task, b: Task)
        ensures
            key_of(a) == key_of(b) ==> a == b,
    {
        Self::lemma_key_roundtrip(a);
        Self::lemma_key_roundtrip(b);
    }

    /// An empty queue.
    pub fn new() -> (q: Self)
        ensures
            q@ == Set::<Task>::empty(),
    {
        let q = TaskQueue { queue: pq_new() };
        assert(q@ =~= Set::<Task>::empty());
        q
    }

    /// Adds a task, with its kind as its priority. When the task was already
    /// pending, its kind comes back and nothing else changes.
    pub fn push(&mut self, task: Task) -> (previous: Option<TaskKind>)
        ensures
            final(self)@ == old(self)@.insert(task),
            previous == (if old(self)@.contains(task) {
                Some(task.kind)
            } else {
                None::<TaskKind>
            }),
    {
        proof {
            use_type_invariant(&*self);
        }
        let ghost before = pq_contents(self.queue);
        let key = (task.id, task.arrival_time, task.kind.priority(), task.duration, task.time_queued);
        proof {
            Self::lemma_key_roundtrip(task);
        }
        let mut queue = pq_new();
        std::mem::swap(&mut queue, &mut self.queue);
        let previous = pq_push(&mut queue, key, task.kind.priority());
        self.queue = queue;
        proof {
            let after = pq_contents(self.queue);
            assert forall|t: Task| #[trigger] self@.contains(t) == old(self)@.insert(task).contains(t) by {
                Self::lemma_key_injective(t, task);
            }
            assert(self@ =~= old(self)@.insert(task));
            assert forall|k: TaskKey| #[trigger] after.contains_key(k) implies valid_key(k) && after[k] == k.2 by {
                if k != key {
                    assert(before.contains_key(k));
                }
            }
        }
        match previous {
            Some(p) => TaskKind::from_priority(p),
            None => None,
        }
    }

    /// Takes out a pending task of the highest priority, with its kind: a `CPU`
    /// task while there is one, else an `IO` task. `None` when nothing is pending.
    pub fn pop(&mut self) -> (popped: Option<(Task, TaskKind)>)
        ensures
            match popped {
                None => old(self)@ == Set::<Task>::empty() && final(self)@ == old(self)@,
                Some((task, kind)) => {
                    &&& old(self)@.contains(task)
                    &&& kind == task.kind
                    &&& forall|other: Task| #[trigger]
                        old(self)@.contains(other) ==> other.kind.spec_priority()
                            <= kind.spec_priority()
                    &&& final(self)@ == old(self)@.remove(task)
                },
            },
    {
        proof {
            use_type_invariant(&*self);
        }
        let ghost before = pq_contents(self.queue);
        let mut queue = pq_new();
        std::mem::swap(&mut queue, &mut self.queue);
        let popped = pq_pop(&mut queue);
        self.queue = queue;
        match popped {
            None => {
                assert(old(self)@ =~= Set::<Task>::empty());
                None
            },
            Some((key, p)) => {
                let kind = TaskKind::from_priority(key.2);
                let kind = match kind {
                    Some(k) => k,
                    None => {
                        assert(false);
                        TaskKind::IO
                    },
                };
                let task = Task {
                    id: key.0,
                    arrival_time: key.1,
                    kind,
                    duration: key.3,
                    time_queued: key.4,
                };
                proof {
                    let after = pq_contents(self.queue);
                    assert(key_of(task) == key);
                    assert forall|other: Task| #[trigger] old(self)@.contains(other) implies other.kind.spec_priority() <= kind.spec_priority() by {
                        assert(before.contains_key(key_of(other)));
                    }
                    assert forall|t: Task| #[trigger] self@.contains(t) == old(self)@.remove(task).contains(t) by {
                        Self::lemma_key_injective(t, task);
                    }
                    assert(self@ =~= old(self)@.remove(task));
                    assert forall|k: TaskKey| #[trigger] after.contains_key(k) implies valid_key(k) && after[k] == k.2 by {
                        assert(before.contains_key(k));
                    }
                }
                Some((task, kind))
            },
        }
    }

    /// Whether no task is pending.
    pub fn is_empty(&self) -> (empty: bool)
        ensures
            empty == (self@ == Set::<Task>::empty()),
    {
        let empty = pq_is_empty(&self.queue);
        proof {
            use_type_invariant(self);
            if !empty {
                if pq_contents(self.queue).dom() =~= Set::<TaskKey>::empty() {
                    assert(pq_contents(self.queue) =~= no_keys());
                }
                let k = choose|k: TaskKey| pq_contents(self.queue).contains_key(k);
                assert(pq_contents(self.queue).contains_key(k));
                assert(valid_key(k));
                assert(key_of(task_of(k)) == k);
                assert(self@.contains(task_of(k)));
            } else {
                assert(self@ =~= Set::<Task>::empty());
            }
        }
        empty
    }
}

/// A `CPU` task is never passed over for an `IO` task: a task of greatest
/// priority among pending tasks that include a `CPU` task is a `CPU` task.
pub proof fn lemma_cpu_before_io(pending: Set<Task>, picked: Task, waiting: Task)
    requires
        pending.contains(picked),
        forall|other: Task| #[trigger]
            pending.contains(other) ==> other.kind.spec_priority() <= picked.kind.spec_priority(),
        pending.contains(waiting),
        waiting.kind == TaskKind::CPU,
    ensures
        picked.kind == TaskKind::CPU,
{
    assert(pending.contains(waiting));
}

} // verus!

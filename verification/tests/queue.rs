use worker_pools::pool::{enqueue_and_select, round_robin_finished};
use worker_pools::queue::TaskQueue;
use worker_pools::task::{Task, TaskKind};

fn task(id: i32, kind: TaskKind) -> Task {
    Task { id, arrival_time: 1_000 * id as i128, kind, duration: 200_000_000, time_queued: 3 }
}

#[test]
fn new_queue_is_empty() {
    let mut q = TaskQueue::new();
    assert!(q.is_empty());
    assert_eq!(q.pop(), None);
    assert!(q.is_empty());
}

#[test]
fn single_task_comes_back() {
    let mut q = TaskQueue::new();
    let t = task(9, TaskKind::IO);
    assert_eq!(q.push(t), None);
    assert!(!q.is_empty());
    assert_eq!(q.pop(), Some((t, TaskKind::IO)));
    assert!(q.is_empty());
}

#[test]
fn cpu_tasks_leave_before_io_tasks() {
    let mut q = TaskQueue::new();
    q.push(task(1, TaskKind::IO));
    q.push(task(2, TaskKind::CPU));
    q.push(task(3, TaskKind::IO));
    q.push(task(4, TaskKind::CPU));
    let mut kinds = Vec::new();
    let mut ids = Vec::new();
    while let Some((t, k)) = q.pop() {
        assert_eq!(t.kind, k);
        kinds.push(k);
        ids.push(t.id);
    }
    assert_eq!(kinds, vec![TaskKind::CPU, TaskKind::CPU, TaskKind::IO, TaskKind::IO]);
    ids[..2].sort();
    ids[2..].sort();
    assert_eq!(ids, vec![2, 4, 1, 3]);
}

#[test]
fn pushing_a_pending_task_again_changes_nothing() {
    let mut q = TaskQueue::new();
    let t = task(5, TaskKind::CPU);
    assert_eq!(q.push(t), None);
    assert_eq!(q.push(t), Some(TaskKind::CPU));
    assert_eq!(q.pop(), Some((t, TaskKind::CPU)));
    assert!(q.is_empty());
}

#[test]
fn tasks_that_differ_in_any_field_are_distinct() {
    let mut q = TaskQueue::new();
    let t = task(5, TaskKind::CPU);
    let u = Task { duration: 1, ..t };
    assert_eq!(q.push(t), None);
    assert_eq!(q.push(u), None);
    assert!(q.pop().is_some());
    assert!(q.pop().is_some());
    assert!(q.pop().is_none());
}

#[test]
fn new_task_waits_behind_pending_cpu_task() {
    let mut q = TaskQueue::new();
    let cpu = task(1, TaskKind::CPU);
    q.push(cpu);
    let io = task(2, TaskKind::IO);
    assert_eq!(enqueue_and_select(&mut q, io), (cpu, TaskKind::CPU));
    assert_eq!(q.pop(), Some((io, TaskKind::IO)));
}

#[test]
fn new_cpu_task_goes_ahead_of_pending_io_task() {
    let mut q = TaskQueue::new();
    let io = task(1, TaskKind::IO);
    q.push(io);
    let cpu = task(2, TaskKind::CPU);
    assert_eq!(enqueue_and_select(&mut q, cpu), (cpu, TaskKind::CPU));
    assert_eq!(q.pop(), Some((io, TaskKind::IO)));
}

#[test]
fn new_task_on_empty_queue_is_selected() {
    let mut q = TaskQueue::new();
    let io = task(1, TaskKind::IO);
    assert_eq!(enqueue_and_select(&mut q, io), (io, TaskKind::IO));
    assert!(q.is_empty());
}

#[test]
fn round_robin_pool_finishes_when_drained() {
    let mut q = TaskQueue::new();
    assert!(round_robin_finished(&q, 0));
    assert!(!round_robin_finished(&q, 10));
    q.push(task(1, TaskKind::IO));
    assert!(!round_robin_finished(&q, 0));
    q.pop();
    assert!(round_robin_finished(&q, 0));
}

use worker_pools::load::LoadCounter;
use worker_pools::round_robin::{TaskHandle, TaskMediator};
use worker_pools::task::{Task, TaskKind};

fn task(kind: TaskKind, duration: u64) -> Task {
    Task { id: 4, arrival_time: 100, kind, duration, time_queued: 150 }
}

#[test]
fn pending_task_becomes_a_handle() {
    let m = TaskMediator::new(50);
    let t = task(TaskKind::IO, 80);
    let h = m.get_pending_task(Some(t)).unwrap();
    assert_eq!(h.task, t);
    assert_eq!(h.mediator.quanta(), 50);
    assert!(m.get_pending_task(None).is_none());
}

#[test]
fn returned_task_message() {
    let m = TaskMediator::new(50);
    let t = task(TaskKind::CPU, 80);
    assert_eq!(m.return_task(t), Some(t));
}

#[test]
fn mediator_quanta() {
    assert_eq!(TaskMediator::new(50_000_000).quanta(), 50_000_000);
}

#[test]
fn handle_keeps_task_and_mediator() {
    let t = task(TaskKind::CPU, 1);
    let h = TaskHandle::new(t, TaskMediator::new(7));
    assert_eq!(h.task, t);
    assert_eq!(h.mediator.quanta, 7);
}

#[test]
fn update_load_takes_the_kind_off() {
    let m = TaskMediator::new(50);
    let mut load = LoadCounter::new();
    assert!(load.try_dispatch(TaskKind::CPU));
    assert!(load.try_dispatch(TaskKind::IO));
    assert_eq!(load.value(), 45);
    assert!(m.update_load(&mut load, task(TaskKind::CPU, 10)));
    assert_eq!(load.value(), 10);
    assert!(m.update_load(&mut load, task(TaskKind::IO, 10)));
    assert_eq!(load.value(), 0);
    assert!(!m.update_load(&mut load, task(TaskKind::IO, 10)));
    assert_eq!(load.value(), 0);
}

#[test]
fn burst_of_a_kind_not_running_still_releases_its_load() {
    let mut load = LoadCounter::new();
    for _ in 0..4 {
        assert!(load.try_dispatch(TaskKind::IO));
    }
    assert_eq!(load.value(), 40);
    let mut h = TaskHandle::new(task(TaskKind::CPU, 120), TaskMediator::new(50));
    let b = h.do_work();
    assert_eq!(b.release, TaskKind::CPU);
    assert!(h.mediator.update_load(&mut load, h.task));
    assert_eq!(load.value(), 5);
}

#[test]
fn unfinished_cpu_burst_requeues_and_releases() {
    let mut load = LoadCounter::new();
    assert!(load.try_dispatch(TaskKind::CPU));
    assert_eq!(load.value(), 35);
    let t = Task { id: 1, arrival_time: 0, kind: TaskKind::CPU, duration: 120_000_000, time_queued: 0 };
    let mut h = TaskHandle::new(t, TaskMediator::new(50_000_000));
    let b = h.do_work();
    assert!(!b.is_last_burst);
    assert_eq!(h.task, Task { duration: 70_000_000, ..t });
    assert_eq!(b.requeue, Some(h.task));
    assert_eq!(b.release, TaskKind::CPU);
    assert!(h.mediator.update_load(&mut load, h.task));
    assert_eq!(load.value(), 0);
}

#[test]
fn last_io_burst_releases_without_requeue() {
    let mut load = LoadCounter::new();
    assert!(load.try_dispatch(TaskKind::IO));
    assert_eq!(load.value(), 10);
    let t = Task { id: 2, arrival_time: 0, kind: TaskKind::IO, duration: 50_000_000, time_queued: 0 };
    let mut h = TaskHandle::new(t, TaskMediator::new(50_000_000));
    let b = h.do_work();
    assert!(b.is_last_burst);
    assert_eq!(h.task, t);
    assert_eq!(b.requeue, None);
    assert_eq!(b.release, TaskKind::IO);
    assert!(h.mediator.update_load(&mut load, h.task));
    assert_eq!(load.value(), 0);
}

#[test]
fn long_task_runs_in_quanta_and_comes_back() {
    let mut h = TaskHandle::new(task(TaskKind::IO, 120), TaskMediator::new(50));
    let b1 = h.do_work();
    assert!(!b1.is_last_burst);
    assert_eq!(b1.run_for, 50);
    assert_eq!(h.task.duration, 70);
    assert_eq!(b1.requeue, Some(task(TaskKind::IO, 70)));
    let b2 = h.do_work();
    assert!(!b2.is_last_burst);
    assert_eq!(b2.run_for, 50);
    assert_eq!(b2.requeue, Some(task(TaskKind::IO, 20)));
    let b3 = h.do_work();
    assert!(b3.is_last_burst);
    assert_eq!(b3.run_for, 20);
    assert_eq!(b3.requeue, None);
    assert_eq!(h.task.duration, 20);
}

#[test]
fn task_of_exactly_one_quantum_is_one_burst() {
    let mut h = TaskHandle::new(task(TaskKind::CPU, 50), TaskMediator::new(50));
    let b = h.do_work();
    assert!(b.is_last_burst);
    assert_eq!(b.run_for, 50);
    assert_eq!(b.requeue, None);
}

#[test]
fn empty_task_is_one_empty_burst() {
    let mut h = TaskHandle::new(task(TaskKind::CPU, 0), TaskMediator::new(50));
    let b = h.do_work();
    assert!(b.is_last_burst);
    assert_eq!(b.run_for, 0);
}

#[test]
fn bursts_add_up_to_the_duration() {
    let quantum = 50_000_000u64;
    for millis in [100u64, 200, 230, 999, 1000] {
        let d = millis * 1_000_000;
        let mut h = TaskHandle::new(task(TaskKind::IO, d), TaskMediator::new(quantum));
        let mut total = 0u64;
        let mut count = 0u64;
        loop {
            let b = h.do_work();
            assert!(b.run_for <= quantum);
            total += b.run_for;
            count += 1;
            if b.is_last_burst {
                break;
            }
            assert_eq!(b.run_for, quantum);
            h = TaskHandle::new(b.requeue.unwrap(), h.mediator.clone());
        }
        assert_eq!(total, d);
        assert_eq!(count, (d + quantum - 1) / quantum);
    }
}

#[test]
fn every_burst_releases_what_its_dispatch_added() {
    let mut load = LoadCounter::new();
    let mut h = TaskHandle::new(task(TaskKind::CPU, 120), TaskMediator::new(50));
    loop {
        assert!(load.try_dispatch(h.task.kind));
        let b = h.do_work();
        assert_eq!(b.release, h.task.kind);
        assert!(h.mediator.update_load(&mut load, h.task));
        assert_eq!(load.value(), 0);
        if b.is_last_burst {
            break;
        }
    }
}

use worker_pools::load::{LoadCounter, MAX_LOAD};
use worker_pools::task::{Task, TaskKind};

#[test]
fn cpu_task_load_is_35() {
    assert_eq!(TaskKind::CPU.get_load(), 35);
}

#[test]
fn io_task_load_is_10() {
    assert_eq!(TaskKind::IO.get_load(), 10);
}

#[test]
fn cpu_outranks_io() {
    assert_eq!(TaskKind::CPU.priority(), 2);
    assert_eq!(TaskKind::IO.priority(), 1);
    assert!(TaskKind::CPU > TaskKind::IO);
    assert_eq!(TaskKind::from_priority(2), Some(TaskKind::CPU));
    assert_eq!(TaskKind::from_priority(1), Some(TaskKind::IO));
    assert_eq!(TaskKind::from_priority(0), None);
    assert_eq!(TaskKind::from_priority(3), None);
}

#[test]
fn kinds_print_as_in_the_log() {
    assert_eq!(format!("{:?}", TaskKind::CPU), "CPU");
    assert_eq!(format!("{:?}", TaskKind::IO), "IO");
}

#[test]
fn tasks_compare_by_all_fields() {
    let a = Task { id: 1, arrival_time: 5, kind: TaskKind::IO, duration: 7, time_queued: 9 };
    let b = Task { time_queued: 10, ..a };
    assert_ne!(a, b);
    assert_eq!(a, a.clone());
}

fn counter_at(kinds: &[TaskKind]) -> LoadCounter {
    let mut c = LoadCounter::new();
    for &k in kinds {
        assert!(c.try_dispatch(k));
    }
    c
}

#[test]
fn room_until_the_cap() {
    let mut c = counter_at(&[TaskKind::CPU, TaskKind::IO, TaskKind::IO, TaskKind::IO]);
    assert_eq!(c.value(), 65);
    assert!(c.try_dispatch(TaskKind::CPU));
    assert_eq!(c.value(), 100);
    let mut d = counter_at(&[TaskKind::CPU, TaskKind::CPU, TaskKind::IO, TaskKind::IO]);
    assert_eq!(d.value(), 90);
    assert!(!d.try_dispatch(TaskKind::CPU));
    assert!(d.try_dispatch(TaskKind::IO));
    assert!(!d.try_dispatch(TaskKind::IO));
    assert_eq!(d.value(), 100);
    assert_eq!(MAX_LOAD, 100);
}

#[test]
fn dispatch_adds_load_when_it_fits() {
    let mut c = LoadCounter::new();
    assert_eq!(c.value(), 0);
    assert!(c.try_dispatch(TaskKind::CPU));
    assert!(c.try_dispatch(TaskKind::CPU));
    assert_eq!(c.value(), 70);
    assert!(!c.try_dispatch(TaskKind::CPU));
    assert_eq!(c.value(), 70);
    assert!(c.try_dispatch(TaskKind::IO));
    assert!(c.try_dispatch(TaskKind::IO));
    assert!(c.try_dispatch(TaskKind::IO));
    assert_eq!(c.value(), 100);
    assert!(!c.try_dispatch(TaskKind::IO));
    assert_eq!(c.value(), 100);
}

#[test]
fn finishing_undoes_dispatching() {
    for start in [&[][..], &[TaskKind::IO], &[TaskKind::CPU, TaskKind::IO], &[TaskKind::CPU, TaskKind::IO, TaskKind::IO]] {
        let mut c = counter_at(start);
        let before = c.value();
        assert!(c.try_dispatch(TaskKind::CPU));
        assert!(c.release(TaskKind::CPU));
        assert_eq!(c.value(), before);
    }
}

#[test]
fn load_tracks_running_tasks_in_any_order() {
    let mut c = counter_at(&[TaskKind::CPU, TaskKind::IO, TaskKind::IO, TaskKind::CPU]);
    assert_eq!(c.value(), 90);
    assert!(c.release(TaskKind::IO));
    assert_eq!(c.value(), 80);
    assert!(c.release(TaskKind::CPU));
    assert_eq!(c.value(), 45);
    assert!(c.release(TaskKind::CPU));
    assert!(c.release(TaskKind::IO));
    assert_eq!(c.value(), 0);
}

#[test]
fn release_lowers_the_load_whenever_it_is_large_enough() {
    let mut c = counter_at(&[TaskKind::IO, TaskKind::IO, TaskKind::IO, TaskKind::IO]);
    assert!(c.release(TaskKind::CPU));
    assert_eq!(c.value(), 5);
    assert!(!c.release(TaskKind::IO));
    assert_eq!(c.value(), 5);
    let mut empty = LoadCounter::new();
    assert!(!empty.release(TaskKind::IO));
    assert_eq!(empty.value(), 0);
}

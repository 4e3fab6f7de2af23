use std::cell::Cell;
use std::rc::Rc;
use window::connection::Connection;
use window::ids::WindowIds;
use window::registry::WindowRegistry;
use window::tasks::TaskTable;
use window::timer::{interval_nanos, Timer};

struct Job {
    steps_left: u32,
    done: Rc<Cell<bool>>,
}

fn step(mut job: Job) -> Option<Job> {
    job.steps_left -= 1;
    if job.steps_left == 0 {
        job.done.set(true);
        None
    } else {
        Some(job)
    }
}

#[test]
fn window_ids_start_at_one_and_increase() {
    let mut ids = WindowIds::new();
    let mut last = 0usize;
    for expected in 1..=100usize {
        let id = ids.allocate_id().unwrap();
        assert_eq!(id, expected);
        assert!(id > last);
        last = id;
    }
}

#[test]
fn connection_window_ids_are_distinct() {
    let mut conn: Connection<String, Job> = Connection::create_new();
    let a = conn.next_window_id().unwrap();
    let b = conn.next_window_id().unwrap();
    let c = conn.next_window_id().unwrap();
    assert_eq!((a, b, c), (1, 2, 3));
}

#[test]
fn register_then_lookup_gives_the_window() {
    let mut reg: WindowRegistry<Rc<Cell<i32>>> = WindowRegistry::new();
    let state = Rc::new(Cell::new(7));
    assert!(reg.register(1, state.clone()));
    let found = reg.lookup(1).unwrap();
    assert!(Rc::ptr_eq(found, &state));
    found.set(9);
    assert_eq!(state.get(), 9);
}

#[test]
fn register_twice_is_refused() {
    let mut reg: WindowRegistry<&str> = WindowRegistry::new();
    assert!(reg.register(4, "first"));
    assert!(!reg.register(4, "second"));
    assert_eq!(reg.lookup(4), Some(&"first"));
}

#[test]
fn with_mutable_on_unknown_id_does_nothing() {
    let mut reg: WindowRegistry<i32> = WindowRegistry::new();
    reg.register(1, 10);
    let called = Cell::new(false);
    let changed = reg.with_mutable(2, |w| {
        called.set(true);
        w + 1
    });
    assert!(!changed);
    assert!(!called.get());
    assert_eq!(reg.lookup(1), Some(&10));
    assert_eq!(reg.lookup(2), None);
}

#[test]
fn with_mutable_on_cleared_id_does_nothing() {
    let mut reg: WindowRegistry<i32> = WindowRegistry::new();
    reg.register(1, 10);
    reg.clear_all();
    assert!(!reg.with_mutable(1, |w| w + 1));
    assert!(!reg.contains(1));
}

#[test]
fn with_mutable_edits_in_place() {
    let mut reg: WindowRegistry<i32> = WindowRegistry::new();
    reg.register(3, 10);
    assert!(reg.with_mutable(3, |w| w * 2));
    assert_eq!(reg.lookup(3), Some(&20));
}

#[test]
fn clear_all_empties_every_lookup() {
    let mut reg: WindowRegistry<u8> = WindowRegistry::new();
    for id in 1..=5usize {
        reg.register(id, id as u8);
    }
    reg.clear_all();
    for id in 1..=5usize {
        assert_eq!(reg.lookup(id), None);
    }
}

#[test]
fn add_then_poll_drives_the_task_once() {
    let mut table: TaskTable<Job> = TaskTable::new();
    let done = Rc::new(Cell::new(false));
    let slot = table
        .add_task(Job { steps_left: 2, done: done.clone() })
        .unwrap();
    let polls = Cell::new(0);
    let poll = |j: Job| {
        polls.set(polls.get() + 1);
        step(j)
    };
    assert!(table.poll_by_slot(slot, poll));
    assert_eq!(polls.get(), 1);
    assert!(table.is_pending(slot));
    assert!(table.poll_by_slot(slot, step));
    assert!(done.get());
    assert!(!table.is_pending(slot));
    let again = Cell::new(false);
    assert!(!table.poll_by_slot(slot, |j: Job| {
        again.set(true);
        Some(j)
    }));
    assert!(!again.get());
}

#[test]
fn slots_are_distinct_and_reused_after_completion() {
    let mut table: TaskTable<Job> = TaskTable::new();
    let flag = Rc::new(Cell::new(false));
    let a = table.add_task(Job { steps_left: 1, done: flag.clone() }).unwrap();
    let b = table.add_task(Job { steps_left: 5, done: flag.clone() }).unwrap();
    assert_ne!(a, b);
    assert!(table.poll_by_slot(a, step));
    assert!(!table.is_pending(a));
    let c = table.add_task(Job { steps_left: 1, done: flag.clone() }).unwrap();
    assert_ne!(c, b);
    assert!(table.is_pending(b) && table.is_pending(c));
}

#[test]
fn spawned_task_runs_on_first_queued_work() {
    let mut conn: Connection<String, Job> = Connection::create_new();
    let flag = Rc::new(Cell::new(false));
    let slot = conn
        .spawn_task(Job { steps_left: 1, done: flag.clone() })
        .unwrap();
    assert!(conn.is_task_pending(slot));
    assert_eq!(conn.queued_len(), 1);
    assert_eq!(conn.run_queued_work(step), Some(slot));
    assert!(flag.get());
    assert!(!conn.is_task_pending(slot));
    assert_eq!(conn.queued_len(), 0);
}

#[test]
fn queued_work_runs_in_posting_order() {
    let mut conn: Connection<String, Job> = Connection::create_new();
    let flag = Rc::new(Cell::new(false));
    let a = conn.spawn_task(Job { steps_left: 2, done: flag.clone() }).unwrap();
    let b = conn.spawn_task(Job { steps_left: 3, done: flag.clone() }).unwrap();
    conn.wake_task_by_id(a);
    assert_eq!(conn.run_queued_work(step), Some(a));
    assert_eq!(conn.run_queued_work(step), Some(b));
    assert_eq!(conn.run_queued_work(step), Some(a));
    assert_eq!(conn.run_queued_work(step), None);
    assert!(!conn.is_task_pending(a));
    assert!(conn.is_task_pending(b));
}

#[test]
fn waking_an_unknown_slot_is_a_no_op() {
    let mut conn: Connection<String, Job> = Connection::create_new();
    conn.wake_task_by_id(42);
    let called = Cell::new(false);
    let r = conn.run_queued_work(|j: Job| {
        called.set(true);
        Some(j)
    });
    assert_eq!(r, Some(42));
    assert!(!called.get());
    assert!(!conn.is_task_pending(42));
}

#[test]
fn message_loop_exit_clears_windows() {
    let mut conn: Connection<String, Job> = Connection::create_new();
    let id = conn.next_window_id().unwrap();
    assert!(conn.register_window(id, "main".to_string()));
    assert!(conn.with_window_inner(id, |mut w: String| {
        w.push('!');
        w
    }));
    assert_eq!(conn.window_by_id(id).map(|w| w.as_str()), Some("main!"));
    conn.terminate_message_loop();
    conn.finish_message_loop();
    assert_eq!(conn.window_by_id(id), None);
    assert!(!conn.with_window_inner(id, |w: String| w));
}

#[test]
fn timer_with_zero_interval_fires_once_per_iteration() {
    assert_eq!(interval_nanos(0, 0), 0);
    let count = Rc::new(Cell::new(0u32));
    let seen = count.clone();
    let mut timer = Timer::new(move || seen.set(seen.get() + 1));
    assert!(timer.armed());
    assert!(timer.fire());
    assert_eq!(count.get(), 1);
}

#[test]
fn timer_releases_exactly_once() {
    let count = Rc::new(Cell::new(0u32));
    let seen = count.clone();
    let mut timer = Timer::new(move || seen.set(seen.get() + 1));
    assert!(timer.fire());
    assert!(timer.fire());
    assert!(timer.fire());
    assert_eq!(count.get(), 3);
    assert_eq!(Rc::strong_count(&count), 2);
    assert!(timer.release());
    assert_eq!(Rc::strong_count(&count), 1);
    assert!(!timer.armed());
    assert!(!timer.fire());
    assert_eq!(count.get(), 3);
    assert!(!timer.release());
}

#[test]
fn interval_in_nanoseconds() {
    assert_eq!(interval_nanos(0, 100_000_000), 100_000_000);
    assert_eq!(interval_nanos(1, 500_000_000), 1_500_000_000);
    assert_eq!(
        interval_nanos(u64::MAX, 999_999_999),
        (u64::MAX as u128) * 1_000_000_000 + 999_999_999
    );
}

#[test]
fn running_slot_is_not_handed_out_again() {
    let mut table: TaskTable<Job> = TaskTable::new();
    let flag = Rc::new(Cell::new(false));
    let a = table.add_task(Job { steps_left: 2, done: flag.clone() }).unwrap();
    let job = table.begin_poll(a).unwrap();
    assert!(table.is_running(a));
    assert!(!table.is_pending(a));
    assert!(table.begin_poll(a).is_none());
    let b = table.add_task(Job { steps_left: 1, done: flag.clone() }).unwrap();
    assert_ne!(a, b);
    table.end_poll(a, step(job));
    assert!(!table.is_running(a));
    assert!(table.is_pending(a));
    let job = table.begin_poll(a).unwrap();
    table.end_poll(a, step(job));
    assert!(flag.get());
    assert!(!table.is_pending(a) && !table.is_running(a));
    assert_eq!(table.add_task(Job { steps_left: 1, done: flag.clone() }), Some(a));
}

#[test]
fn take_and_finish_queued_task() {
    let mut conn: Connection<String, Job> = Connection::create_new();
    let flag = Rc::new(Cell::new(false));
    assert_eq!(conn.next_queued(), None);
    assert!(conn.take_queued_task().is_none());
    let slot = conn.spawn_task(Job { steps_left: 2, done: flag.clone() }).unwrap();
    conn.wake_task_by_id(99);
    assert_eq!(conn.next_queued(), Some(slot));
    let (s, job) = conn.take_queued_task().unwrap();
    assert_eq!(s, slot);
    assert!(conn.is_task_running(slot));
    conn.finish_task_poll(slot, step(job.unwrap()));
    assert!(conn.is_task_pending(slot));
    assert!(!flag.get());
    let (s, job) = conn.take_queued_task().unwrap();
    assert_eq!(s, 99);
    assert!(job.is_none());
    assert!(!conn.is_task_running(99));
    assert_eq!(conn.queued_len(), 0);
}

#[test]
fn drain_polls_every_queued_pending_task() {
    let mut conn: Connection<String, Job> = Connection::create_new();
    let flag = Rc::new(Cell::new(false));
    conn.wake_task_by_id(7);
    let a = conn.spawn_task(Job { steps_left: 3, done: flag.clone() }).unwrap();
    let b = conn.spawn_task(Job { steps_left: 1, done: flag.clone() }).unwrap();
    conn.wake_task_by_id(b);
    let polled = conn.drain_queued_work(&step);
    assert_eq!(polled, vec![a, b]);
    assert_eq!(conn.queued_len(), 0);
    assert!(conn.is_task_pending(a));
    assert!(!conn.is_task_pending(b));
    assert!(flag.get());
}

#[test]
fn timer_fire_runs_the_held_callback_each_time() {
    let count = Rc::new(Cell::new(0u32));
    let seen = count.clone();
    let mut calls = 0u32;
    let mut timer = Timer::new(move || {
        calls += 1;
        seen.set(calls);
    });
    for _ in 0..5 {
        assert!(timer.fire());
    }
    assert_eq!(count.get(), 5);
}

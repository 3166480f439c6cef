//! The scheduler's decisions, on a clock the tests hold.

use synonz::scheduler::{advance, wait_until, OverlapPolicy, Schedule, Scheduler, IDLE_WAIT};

const MILLI: u128 = 1_000_000;
const SECOND: u128 = 1_000_000_000;

/// Plays a schedule of executions that take `length`, looking at the clock
/// every millisecond; returns how many executions started and the most that
/// ran at once.
fn play(policy: OverlapPolicy, period: u128, length: u128, until: u128) -> (usize, usize) {
    let mut scheduler = Scheduler::new();
    let handle = scheduler.schedule(Schedule::every(period), policy, 0);
    let mut ends: Vec<u128> = Vec::new();
    let (mut started, mut most) = (0, 0);
    let mut now = 0;
    while now < until {
        let (over, running): (Vec<u128>, Vec<u128>) = ends.iter().partition(|&&end| end <= now);
        ends = running;
        for _ in over {
            if scheduler.finished(handle.id(), false) {
                started += 1;
                ends.push(now + length);
            }
        }
        for id in scheduler.tick(now).due {
            assert_eq!(id, handle.id());
            started += 1;
            ends.push(now + length);
        }
        most = most.max(ends.len());
        now += MILLI;
    }
    (started, most)
}

#[test]
fn fires_immediately_then_periodically() {
    let (count, _) = play(OverlapPolicy::Skip, 3600 * SECOND, MILLI, 30 * MILLI);
    assert_eq!(count, 1, "registration fires immediately");
    let (count, _) = play(OverlapPolicy::Skip, 10 * MILLI, MILLI, 35 * MILLI);
    assert_eq!(count, 4, "then every period");
}

#[test]
fn skip_policy_drops_triggers_while_running() {
    let (count, most) = play(OverlapPolicy::Skip, 50 * MILLI, 120 * MILLI, 360 * MILLI);
    assert!(
        (2..=4).contains(&count),
        "skip policy must drop overlapping triggers (ran {count} times)"
    );
    assert_eq!(most, 1);
}

#[test]
fn queue_policy_runs_back_to_back() {
    let (count, most) = play(OverlapPolicy::Queue, 30 * MILLI, 80 * MILLI, 300 * MILLI);
    assert!(
        (3..=5).contains(&count),
        "queue policy runs back-to-back under overload (ran {count} times)"
    );
    assert_eq!(most, 1);
}

#[test]
fn queued_triggers_merge_into_one_more_run() {
    let mut scheduler = Scheduler::new();
    let handle = scheduler.schedule(Schedule::every(10 * MILLI), OverlapPolicy::Queue, 0);
    assert_eq!(scheduler.tick(0).due, [handle.id()]);
    // Five triggers come while the first execution runs.
    for now in 1..=55 {
        assert!(scheduler.tick(now * MILLI).due.is_empty());
    }
    assert!(scheduler.finished(handle.id(), false), "they run once more");
    assert!(!scheduler.finished(handle.id(), false), "and only once");
    // None comes while the next execution runs.
    assert_eq!(scheduler.tick(60 * MILLI).due, [handle.id()]);
    assert!(scheduler.tick(65 * MILLI).due.is_empty());
    assert!(!scheduler.finished(handle.id(), false));
}

#[test]
fn concurrent_policy_allows_overlap() {
    let (_, most) = play(OverlapPolicy::Concurrent, 30 * MILLI, 100 * MILLI, 200 * MILLI);
    assert!(most >= 2, "concurrent policy must overlap executions");
}

#[test]
fn long_task_does_not_block_other_triggers() {
    let mut scheduler = Scheduler::new();
    let _slow = scheduler.schedule(Schedule::every(20 * MILLI), OverlapPolicy::Skip, 0);
    let fast = scheduler.schedule(Schedule::every(20 * MILLI), OverlapPolicy::Skip, 0);
    let mut ran = 0;
    let mut now = 0;
    while now < 220 * MILLI {
        // The slow one never ends; the fast one ends at once.
        for id in scheduler.tick(now).due {
            if id == fast.id() {
                ran += 1;
                scheduler.finished(id, false);
            }
        }
        now += MILLI;
    }
    assert!(ran >= 5, "the fast task keeps triggering while the slow one runs");
}

#[test]
fn panicking_task_does_not_kill_the_loop() {
    let mut scheduler = Scheduler::new();
    let handle = scheduler.schedule(Schedule::every(30 * MILLI), OverlapPolicy::Skip, 0);
    let mut count = 0;
    let mut now = 0;
    while now < 120 * MILLI {
        for id in scheduler.tick(now).due {
            count += 1;
            assert!(!scheduler.finished(id, true), "a panic runs nothing again");
        }
        now += MILLI;
    }
    scheduler.cancel(handle);
    assert!(count >= 2, "the loop must keep firing after a task panic");
}

#[test]
fn tasks_reports_registered_tasks() {
    let mut scheduler = Scheduler::new();
    let handle = scheduler.schedule(Schedule::every(60 * SECOND), OverlapPolicy::Queue, 0);
    let named = scheduler.schedule_named(
        "system-heartbeat",
        Schedule::every(30 * SECOND),
        OverlapPolicy::Skip,
        0,
    );
    assert_eq!(scheduler.tick(0).due, vec![handle.id(), named.id()]);

    let infos = scheduler.tasks(0);
    assert_eq!(infos.len(), 2);
    let info = infos
        .iter()
        .find(|info| info.id == handle.id())
        .expect("the unnamed task is reported");
    assert_eq!(info.policy, OverlapPolicy::Queue);
    assert_eq!(info.schedule.period(), 60 * SECOND);
    assert!(info.name.is_none());
    assert!(info.running);
    assert_eq!(info.next_in, 60 * SECOND);
    let named_info = infos
        .iter()
        .find(|info| info.id == named.id())
        .expect("the named task is reported");
    assert_eq!(named_info.name.as_deref(), Some("system-heartbeat"));

    scheduler.cancel(handle);
    scheduler.cancel(named);
    assert!(scheduler.tasks(0).is_empty());
}

#[test]
fn deadlines_catch_up_without_firing_every_missed_period() {
    assert_eq!(advance(10, 5, 3), 10, "a future deadline stays");
    assert_eq!(advance(10, 5, 10), 15);
    assert_eq!(advance(10, 5, 23), 25, "past now, on the grid");
    assert_eq!(advance(0, 1, 5 * SECOND), 5_000_000_001, "however long the stall");
    assert_eq!(advance(0, 1, u32::MAX as u128 * 2), u32::MAX as u128 * 2 + 1);
}

#[test]
fn waits_until_the_nearest_deadline() {
    let mut scheduler = Scheduler::new();
    assert_eq!(wait_until(scheduler.tick(0).next_wake, 0), IDLE_WAIT);
    scheduler.schedule(Schedule::every(50 * MILLI), OverlapPolicy::Skip, 0);
    scheduler.schedule(Schedule::every(20 * MILLI), OverlapPolicy::Skip, 0);
    let wake = scheduler.tick(5 * MILLI).next_wake;
    assert_eq!(wake, Some(20 * MILLI));
    assert_eq!(wait_until(wake, 5 * MILLI), 15 * MILLI);
    assert_eq!(wait_until(wake, 25 * MILLI), 0);
}

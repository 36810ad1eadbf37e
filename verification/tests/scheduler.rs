use alacritty_core::scheduler::{
    Event, EventType, FrameTimer, Scheduler, Timer, TimerId, Topic,
};

fn frame_event(window: u64) -> Event {
    Event::new(EventType::Frame, Some(window))
}

fn frame_id(window: u64) -> TimerId {
    TimerId::new(Topic::Frame, window)
}

#[test]
fn timers_are_queued_by_deadline() {
    let mut scheduler = Scheduler::new();
    scheduler.schedule(frame_event(1), 30, false, frame_id(1), 100);
    scheduler.schedule(frame_event(2), 10, false, frame_id(2), 100);
    scheduler.schedule(frame_event(3), 20, false, frame_id(3), 100);
    // For one deadline, the timer that came first goes first.
    scheduler.schedule(frame_event(4), 10, false, frame_id(4), 100);
    assert_eq!(scheduler.len(), 4);
    let (events, next) = scheduler.update(109);
    assert!(events.is_empty());
    assert_eq!(next, Some(110));
    let (events, next) = scheduler.update(120);
    assert_eq!(events, vec![frame_event(2), frame_event(4), frame_event(3)]);
    assert_eq!(next, Some(130));
    let (events, next) = scheduler.update(1_000);
    assert_eq!(events, vec![frame_event(1)]);
    assert_eq!(next, None);
    assert_eq!(scheduler.len(), 0);
    assert_eq!(scheduler.update(2_000), (Vec::new(), None));
}

#[test]
fn repeating_timers_come_again() {
    let mut scheduler = Scheduler::new();
    scheduler.schedule(frame_event(1), 10, true, frame_id(1), 0);
    scheduler.schedule(frame_event(2), 15, false, frame_id(2), 0);
    let (events, next) = scheduler.update(12);
    assert_eq!(events, vec![frame_event(1)]);
    assert_eq!(next, Some(15));
    assert!(scheduler.scheduled(frame_id(1)));
    // The timer is due an interval after the time at which it was run.
    let (events, next) = scheduler.update(21);
    assert_eq!(events, vec![frame_event(2)]);
    assert_eq!(next, Some(22));
    let (events, next) = scheduler.update(22);
    assert_eq!(events, vec![frame_event(1)]);
    assert_eq!(next, Some(32));
}

#[test]
fn a_timer_without_interval_repeats_once_per_update() {
    let mut scheduler = Scheduler::new();
    scheduler.schedule(frame_event(1), 0, true, frame_id(1), 5);
    scheduler.schedule(frame_event(2), 0, false, frame_id(2), 5);
    // No more timers are run than were waiting.
    let (events, next) = scheduler.update(5);
    assert_eq!(events, vec![frame_event(1), frame_event(2)]);
    assert_eq!(next, Some(5));
    assert_eq!(scheduler.len(), 1);
}

#[test]
fn unschedule_is_idempotent() {
    let mut scheduler = Scheduler::new();
    scheduler.schedule(frame_event(1), 10, false, frame_id(1), 0);
    scheduler.schedule(frame_event(2), 20, true, frame_id(2), 0);
    assert!(scheduler.scheduled(frame_id(2)));
    assert!(!scheduler.scheduled(TimerId::new(Topic::DelayedSearch, 2)));
    assert_eq!(
        scheduler.unschedule(frame_id(2)),
        Some(Timer { deadline: 20, event: frame_event(2), id: frame_id(2), interval: Some(20) })
    );
    assert!(!scheduler.scheduled(frame_id(2)));
    assert_eq!(scheduler.unschedule(frame_id(2)), None);
    assert_eq!(scheduler.unschedule(frame_id(3)), None);
    assert_eq!(scheduler.len(), 1);
    assert!(scheduler.scheduled(frame_id(1)));
}

#[test]
fn deadlines_hold_at_the_largest_time() {
    let mut scheduler = Scheduler::new();
    scheduler.schedule(frame_event(1), u64::MAX, false, frame_id(1), 10);
    let (events, next) = scheduler.update(u64::MAX - 1);
    assert!(events.is_empty());
    assert_eq!(next, Some(u64::MAX));
}

#[test]
fn frame_timer_paces_the_frames() {
    let interval = 16_000_000;
    let mut timer = FrameTimer::new(1_000);
    // A new interval: the frames are counted from now.
    assert_eq!(timer.compute_timeout(5_000, interval), interval);
    assert_eq!(timer.base, 5_000);
    assert_eq!(timer.last_synced_timestamp, 5_000);
    // In time: the next frame is an interval after the last.
    assert_eq!(timer.compute_timeout(6_000, interval), interval - 1_000);
    assert_eq!(timer.last_synced_timestamp, 5_000 + interval);
    assert_eq!(timer.compute_timeout(5_000 + interval, interval), interval);
    assert_eq!(timer.last_synced_timestamp, 5_000 + 2 * interval);
    // Late: the frame is drawn at once, and the frames fall on multiples
    // of the interval again.
    let now = 5_000 + 5 * interval + 3_000_500;
    assert_eq!(timer.compute_timeout(now, interval), 0);
    assert_eq!(timer.last_synced_timestamp, 5_000 + 5 * interval + 500);
    assert_eq!(timer.base, 5_000);
    // The interval changes: counted anew.
    assert_eq!(timer.compute_timeout(now + 1, 8_000_000), 8_000_000);
    assert_eq!(timer.base, now + 1);
}

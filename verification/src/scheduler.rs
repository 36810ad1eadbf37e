//! Timers: events that are due at a time in the future.
//!
//! Time is a number of nanoseconds on a clock that does not go back. The
//! caller reads the clock and hands the time in.

use std::collections::VecDeque;
use vstd::prelude::*;

verus! {

/// What a timer is for.
#[derive(Copy, Clone, Debug, PartialEq, Eq, Structural)]
pub enum Topic {
    /// The next frame.
    Frame,
    /// A search that was put off while the user was typing.
    DelayedSearch,
}

/// The identity of a timer: what it is for and the window it belongs to.
#[derive(Copy, Clone, Debug, PartialEq, Eq, Structural)]
pub struct TimerId {
    pub topic: Topic,
    pub window_id: u64,
}

impl TimerId {
    pub fn new(topic: Topic, window_id: u64) -> (id: TimerId)
        ensures
            id == (TimerId { topic, window_id }),
    {
        TimerId { topic, window_id }
    }
}

/// What an event says.
#[derive(Copy, Clone, Debug, PartialEq, Eq, Structural)]
pub enum EventType {
    SearchNext,
    Frame,
}

/// An event for one window, or for all.
#[derive(Copy, Clone, Debug, PartialEq, Eq, Structural)]
pub struct Event {
    pub window_id: Option<u64>,
    pub payload: EventType,
}

impl Event {
    pub fn new(payload: EventType, window_id: Option<u64>) -> (event: Event)
        ensures
            event == (Event { window_id, payload }),
    {
        Event { window_id, payload }
    }
}

/// An event that is due at a time.
#[derive(Copy, Clone, Debug, PartialEq, Eq, Structural)]
pub struct Timer {
    pub deadline: u64,
    pub event: Event,
    pub id: TimerId,
    /// The time after which the event is due again, if it repeats.
    pub interval: Option<u64>,
}

/// `now` and `interval`, held at the largest time.
pub open spec fn deadline_after(now: u64, interval: u64) -> u64 {
    if now + interval > u64::MAX {
        u64::MAX
    } else {
        (now + interval) as u64
    }
}

/// The place of the first timer of `timers` that is due after `deadline`.
pub open spec fn insert_position(timers: Seq<Timer>, deadline: u64) -> int
    decreases timers.len(),
{
    if timers.len() == 0 || timers[0].deadline > deadline {
        0
    } else {
        1 + insert_position(timers.drop_first(), deadline)
    }
}

/// `timers` with `timer` before the first timer that is due after it.
pub open spec fn with_timer(timers: Seq<Timer>, timer: Timer) -> Seq<Timer> {
    timers.insert(insert_position(timers, timer.deadline), timer)
}

/// The place of the first timer of `timers` with the identity `id`.
pub open spec fn position_of(timers: Seq<Timer>, id: TimerId) -> Option<int>
    decreases timers.len(),
{
    if timers.len() == 0 {
        None
    } else if timers[0].id == id {
        Some(0)
    } else {
        match position_of(timers.drop_first(), id) {
            Some(i) => Some(i + 1),
            None => None,
        }
    }
}

/// Whether the deadlines of `timers` do not fall.
pub open spec fn sorted_by_deadline(timers: Seq<Timer>) -> bool {
    forall|i: int, j: int|
        0 <= i <= j < timers.len() ==> (#[trigger] timers[i]).deadline <= (
        #[trigger] timers[j]).deadline
}

/// The events that are sent at the time `now`, and the timers that are
/// left: a timer at the front that is due is taken off, and put back with
/// its next deadline if it repeats. At most `most` timers are taken off.
pub open spec fn fired(timers: Seq<Timer>, now: u64, most: nat) -> (Seq<Event>, Seq<Timer>)
    decreases most,
{
    if most == 0 || timers.len() == 0 || timers[0].deadline > now {
        (Seq::empty(), timers)
    } else {
        let timer = timers[0];
        let rest = timers.drop_first();
        let queued = match timer.interval {
            Some(interval) => with_timer(
                rest,
                Timer { deadline: deadline_after(now, interval), ..timer },
            ),
            None => rest,
        };
        let later = fired(queued, now, (most - 1) as nat);
        (seq![timer.event] + later.0, later.1)
    }
}

proof fn lemma_insert_position(timers: Seq<Timer>, deadline: u64)
    ensures
        0 <= insert_position(timers, deadline) <= timers.len(),
        forall|i: int|
            0 <= i < insert_position(timers, deadline) ==> (#[trigger] timers[i]).deadline
                <= deadline,
        insert_position(timers, deadline) < timers.len() ==> timers[insert_position(
            timers,
            deadline,
        )].deadline > deadline,
    decreases timers.len(),
{
    if timers.len() != 0 && timers[0].deadline <= deadline {
        lemma_insert_position(timers.drop_first(), deadline);
        let rest = insert_position(timers.drop_first(), deadline);
        assert forall|i: int| 0 <= i < rest + 1 implies (#[trigger] timers[i]).deadline
            <= deadline by {
            if i > 0 {
                assert(timers.drop_first()[i - 1] == timers[i]);
            }
        }
        if rest + 1 < timers.len() {
            assert(timers.drop_first()[rest] == timers[rest + 1]);
        }
    }
}

/// A timer that is put in its place leaves the deadlines in order.
pub proof fn law_with_timer_sorted(timers: Seq<Timer>, timer: Timer)
    requires
        sorted_by_deadline(timers),
    ensures
        sorted_by_deadline(with_timer(timers, timer)),
{
    lemma_insert_position(timers, timer.deadline);
    let at = insert_position(timers, timer.deadline);
    let out = with_timer(timers, timer);
    assert forall|i: int, j: int| 0 <= i <= j < out.len() implies (#[trigger] out[i]).deadline <= (
    #[trigger] out[j]).deadline by {
        if i < at && j > at {
            assert(out[i] == timers[i]);
            assert(out[j] == timers[j - 1]);
        } else if i < at && j < at {
            assert(out[i] == timers[i]);
            assert(out[j] == timers[j]);
        } else if i > at {
            assert(out[i] == timers[i - 1]);
            assert(out[j] == timers[j - 1]);
        } else if i == at && j > at {
            assert(out[j] == timers[j - 1]);
            assert(timers[at].deadline <= timers[j - 1].deadline);
        } else if j == at && i < at {
            assert(out[i] == timers[i]);
        }
    }
}

/// Taking a timer off by an identity that no timer has changes nothing,
/// and after a timer was taken off by its identity a second call finds
/// either another timer with that identity or none.
pub proof fn law_position_of(timers: Seq<Timer>, id: TimerId)
    ensures
        match position_of(timers, id) {
            Some(i) => 0 <= i < timers.len() && timers[i].id == id && forall|k: int|
                0 <= k < i ==> (#[trigger] timers[k]).id != id,
            None => forall|k: int| 0 <= k < timers.len() ==> (#[trigger] timers[k]).id != id,
        },
    decreases timers.len(),
{
    if timers.len() != 0 && timers[0].id != id {
        law_position_of(timers.drop_first(), id);
        match position_of(timers.drop_first(), id) {
            Some(i) => {
                assert(timers.drop_first()[i] == timers[i + 1]);
                assert forall|k: int| 0 <= k < i + 1 implies (#[trigger] timers[k]).id != id by {
                    if k > 0 {
                        assert(timers.drop_first()[k - 1] == timers[k]);
                    }
                }
            },
            None => {
                assert forall|k: int| 0 <= k < timers.len() implies (#[trigger] timers[k]).id
                    != id by {
                    if k > 0 {
                        assert(timers.drop_first()[k - 1] == timers[k]);
                    }
                }
            },
        }
    }
}

/// The timers that are waiting, the one that is due first at the front.
#[derive(Debug)]
pub struct Scheduler {
    timers: VecDeque<Timer>,
}

impl View for Scheduler {
    type V = Seq<Timer>;

    closed spec fn view(&self) -> Seq<Timer> {
        self.timers@
    }
}

/// Taking a timer off the front leaves the deadlines in order.
proof fn lemma_drop_first_sorted(timers: Seq<Timer>)
    requires
        sorted_by_deadline(timers),
        timers.len() > 0,
    ensures
        sorted_by_deadline(timers.drop_first()),
{
    let rest = timers.drop_first();
    assert forall|i: int, j: int| 0 <= i <= j < rest.len() implies (#[trigger] rest[i]).deadline <= (
    #[trigger] rest[j]).deadline by {
        assert(rest[i] == timers[i + 1]);
        assert(rest[j] == timers[j + 1]);
    }
}

/// Running the timers leaves the deadlines of those that wait in order.
pub proof fn law_fired_sorted(timers: Seq<Timer>, now: u64, most: nat)
    requires
        sorted_by_deadline(timers),
    ensures
        sorted_by_deadline(fired(timers, now, most).1),
    decreases most,
{
    if !(most == 0 || timers.len() == 0 || timers[0].deadline > now) {
        let timer = timers[0];
        let rest = timers.drop_first();
        lemma_drop_first_sorted(timers);
        match timer.interval {
            Some(interval) => {
                let again = Timer { deadline: deadline_after(now, interval), ..timer };
                law_with_timer_sorted(rest, again);
                law_fired_sorted(with_timer(rest, again), now, (most - 1) as nat);
            },
            None => {
                law_fired_sorted(rest, now, (most - 1) as nat);
            },
        }
    }
}

/// Taking a timer out leaves the deadlines in order.
pub proof fn law_remove_sorted(timers: Seq<Timer>, i: int)
    requires
        sorted_by_deadline(timers),
        0 <= i < timers.len(),
    ensures
        sorted_by_deadline(timers.remove(i)),
{
    let rest = timers.remove(i);
    assert forall|a: int, b: int| 0 <= a <= b < rest.len() implies (#[trigger] rest[a]).deadline <= (
    #[trigger] rest[b]).deadline by {
        let a0 = if a < i {
            a
        } else {
            a + 1
        };
        let b0 = if b < i {
            b
        } else {
            b + 1
        };
        assert(rest[a] == timers[a0]);
        assert(rest[b] == timers[b0]);
    }
}

impl Scheduler {
    /// What holds of every scheduler: the timers wait in the order of
    /// their deadlines.
    pub open spec fn wf(&self) -> bool {
        sorted_by_deadline(self@)
    }

    /// A scheduler without timers.
    pub fn new() -> (scheduler: Scheduler)
        ensures
            scheduler@ == Seq::<Timer>::empty(),
            scheduler.wf(),
    {
        Scheduler { timers: VecDeque::new() }
    }

    /// Takes the timers that are due at the time `now` off the queue and
    /// gives their events, in the order of the queue. A timer that repeats
    /// is queued again, due after its interval. No more timers are taken
    /// off than were waiting. Returns the events and the deadline of the
    /// timer that is due next.
    pub fn update(&mut self, now: u64) -> (result: (Vec<Event>, Option<u64>))
        requires
            old(self).wf(),
        ensures
            (result.0@, final(self)@) == fired(old(self)@, now, old(self)@.len()),
            final(self).wf(),
            result.1 == if final(self)@.len() > 0 {
                Some(final(self)@[0].deadline)
            } else {
                None
            },
    {
        let mut events: Vec<Event> = Vec::new();
        let mut left: usize = self.timers.len();
        let ghost start = self@;
        loop
            invariant
                self.wf(),
                fired(start, now, start.len()).0 == events@ + fired(self@, now, left as nat).0,
                fired(start, now, start.len()).1 == fired(self@, now, left as nat).1,
                start == old(self)@,
            decreases left,
        {
            let ghost before = self@;
            let ghost sent = events@;
            if left == 0 || self.timers.len() == 0 || self.timers[0].deadline > now {
                assert(events@ + Seq::<Event>::empty() =~= events@);
                let next: Option<u64> = if self.timers.len() > 0 {
                    Some(self.timers[0].deadline)
                } else {
                    None
                };
                return (events, next);
            }
            left -= 1;
            match self.timers.pop_front() {
                Some(timer) => {
                    assert(self@ =~= before.drop_first());
                    proof {
                        lemma_drop_first_sorted(before);
                    }
                    match timer.interval {
                        Some(interval) => {
                            self.schedule_at(timer.event, now.saturating_add(interval), Some(interval), timer.id);
                        },
                        None => {},
                    }
                    events.push(timer.event);
                    assert(sent + (seq![timer.event] + fired(self@, now, left as nat).0) =~= events@
                        + fired(self@, now, left as nat).0);
                },
                None => {},
            }
        }
    }

    /// Queues a timer with the deadline `deadline`, before the first timer
    /// that is due after it.
    ///
    /// The place is found by halving the queue, which is in the order of
    /// the deadlines.
    fn schedule_at(&mut self, event: Event, deadline: u64, interval: Option<u64>, id: TimerId)
        requires
            old(self).wf(),
        ensures
            final(self).wf(),
            final(self)@ == with_timer(old(self)@, Timer { deadline, event, id, interval }),
    {
        let mut low: usize = 0;
        let mut high: usize = self.timers.len();
        while low < high
            invariant
                low <= high <= self@.len(),
                self@ == old(self)@,
                sorted_by_deadline(self@),
                forall|i: int| 0 <= i < low ==> (#[trigger] self@[i]).deadline <= deadline,
                forall|i: int| high <= i < self@.len() ==> (#[trigger] self@[i]).deadline > deadline,
            decreases high - low,
        {
            let middle: usize = low + (high - low) / 2;
            if self.timers[middle].deadline <= deadline {
                assert forall|i: int| 0 <= i < middle + 1 implies (#[trigger] self@[i]).deadline
                    <= deadline by {
                    assert(self@[i].deadline <= self@[middle as int].deadline);
                }
                low = middle + 1;
            } else {
                assert forall|i: int| middle <= i < self@.len() implies (
                #[trigger] self@[i]).deadline > deadline by {
                    assert(self@[middle as int].deadline <= self@[i].deadline);
                }
                high = middle;
            }
        }
        proof {
            lemma_insert_position(self@, deadline);
            let place = insert_position(self@, deadline);
            if place < low {
                assert(self@[place].deadline <= deadline);
            }
            if place > low {
                assert(self@[low as int].deadline <= deadline);
            }
            law_with_timer_sorted(self@, Timer { deadline, event, id, interval });
        }
        self.timers.insert(low, Timer { deadline, event, id, interval });
    }

    /// Queues `event` to be sent `interval` after the time `now`, and again
    /// after every `interval` if `repeat` is set.
    pub fn schedule(&mut self, event: Event, interval: u64, repeat: bool, timer_id: TimerId, now: u64)
        requires
            old(self).wf(),
        ensures
            final(self).wf(),
            final(self)@ == with_timer(
                old(self)@,
                Timer {
                    deadline: deadline_after(now, interval),
                    event,
                    id: timer_id,
                    interval: if repeat {
                        Some(interval)
                    } else {
                        None
                    },
                },
            ),
    {
        let interval_kept: Option<u64> = if repeat {
            Some(interval)
        } else {
            None
        };
        self.schedule_at(event, now.saturating_add(interval), interval_kept, timer_id);
    }

    /// Takes the first timer with the identity `id` off the queue, if there
    /// is one.
    pub fn unschedule(&mut self, id: TimerId) -> (timer: Option<Timer>)
        ensures
            old(self).wf() ==> final(self).wf(),
            match position_of(old(self)@, id) {
                Some(i) => timer == Some(old(self)@[i]) && final(self)@ == old(self)@.remove(i),
                None => timer is None && final(self)@ == old(self)@,
            },
    {
        let n: usize = self.timers.len();
        let mut index: usize = 0;
        assert(self@.skip(0) =~= self@);
        while index < n
            invariant
                index <= n,
                n == self@.len(),
                self@ == old(self)@,
                position_of(self@, id) == match position_of(self@.skip(index as int), id) {
                    Some(i) => Some(i + index),
                    None => None,
                },
            decreases n - index,
        {
            let timer: Timer = self.timers[index];
            assert(self@.skip(index as int)[0] == timer);
            if timer.id.topic == id.topic && timer.id.window_id == id.window_id {
                proof {
                    if sorted_by_deadline(self@) {
                        law_remove_sorted(self@, index as int);
                    }
                }
                return self.timers.remove(index);
            }
            assert(self@.skip(index as int).drop_first() =~= self@.skip(index + 1));
            index += 1;
        }
        None
    }

    /// Whether a timer with the identity `id` is waiting.
    pub fn scheduled(&self, id: TimerId) -> (r: bool)
        ensures
            r == position_of(self@, id) is Some,
    {
        let n: usize = self.timers.len();
        let mut index: usize = 0;
        assert(self@.skip(0) =~= self@);
        while index < n
            invariant
                index <= n,
                n == self@.len(),
                position_of(self@, id) is Some == position_of(self@.skip(index as int), id) is Some,
            decreases n - index,
        {
            let timer: Timer = self.timers[index];
            assert(self@.skip(index as int)[0] == timer);
            if timer.id.topic == id.topic && timer.id.window_id == id.window_id {
                return true;
            }
            assert(self@.skip(index as int).drop_first() =~= self@.skip(index + 1));
            index += 1;
        }
        false
    }

    /// Number of timers that are waiting.
    pub fn len(&self) -> (n: usize)
        ensures
            n == self@.len(),
    {
        self.timers.len()
    }
}

/// Nanoseconds in a microsecond.
pub const NANOS_PER_MICRO: u64 = 1_000;

/// Paces the frames to the refresh rate of the screen.
#[derive(Debug, Clone, Copy, PartialEq, Eq, Structural)]
pub struct FrameTimer {
    /// The time from which the frames are counted.
    pub base: u64,
    /// The time of the frame that was computed last.
    pub last_synced_timestamp: u64,
    /// The time between two frames that the frames were counted with.
    pub refresh_interval: u64,
}

impl FrameTimer {
    /// What holds of every frame timer: the last frame is not before the
    /// time from which frames are counted.
    pub open spec fn wf(self) -> bool {
        self.base <= self.last_synced_timestamp
    }

    /// Whether the time until the next frame can be computed at the time
    /// `now`: time has not gone back, the interval is a microsecond or more
    /// unless it has changed, and the next frame's time can be written.
    pub open spec fn can_compute(self, now: u64, refresh_interval: u64) -> bool {
        self.refresh_interval != refresh_interval || (self.last_synced_timestamp <= now
            && refresh_interval >= NANOS_PER_MICRO && self.last_synced_timestamp
            + refresh_interval <= u64::MAX)
    }

    /// The frame timer after the time until the next frame was computed at
    /// the time `now`, and that time.
    ///
    /// With a new interval the frames are counted anew from `now`. A frame
    /// that is late is drawn at once and the next one falls on the next
    /// multiple of the interval, counted in microseconds from the base.
    pub open spec fn computed(self, now: u64, refresh_interval: u64) -> (FrameTimer, u64) {
        if self.refresh_interval != refresh_interval {
            (
                FrameTimer { base: now, last_synced_timestamp: now, refresh_interval },
                refresh_interval,
            )
        } else {
            let next_frame = self.last_synced_timestamp + refresh_interval;
            if next_frame < now {
                let elapsed_micros = (now - self.base) / (NANOS_PER_MICRO as int);
                let refresh_micros = refresh_interval / NANOS_PER_MICRO;
                (
                    FrameTimer {
                        last_synced_timestamp: (now - (elapsed_micros % (refresh_micros as int))
                            * NANOS_PER_MICRO) as u64,
                        ..self
                    },
                    0,
                )
            } else {
                (
                    FrameTimer { last_synced_timestamp: next_frame as u64, ..self },
                    (next_frame - now) as u64,
                )
            }
        }
    }

    /// Whether the time until the next frame can be computed at the time
    /// `now`.
    pub fn can_compute_at(&self, now: u64, refresh_interval: u64) -> (r: bool)
        ensures
            r == self.can_compute(now, refresh_interval),
    {
        self.refresh_interval != refresh_interval || (self.last_synced_timestamp <= now
            && refresh_interval >= NANOS_PER_MICRO && self.last_synced_timestamp <= u64::MAX
            - refresh_interval)
    }

    /// A frame timer that counts from the time `now`, with no interval yet.
    pub fn new(now: u64) -> (timer: FrameTimer)
        ensures
            timer == (FrameTimer { base: now, last_synced_timestamp: now, refresh_interval: 0 }),
            timer.wf(),
    {
        FrameTimer { base: now, last_synced_timestamp: now, refresh_interval: 0 }
    }

    /// The time to wait until the next frame, at the time `now`, on a
    /// screen that is refreshed every `refresh_interval`.
    pub fn compute_timeout(&mut self, now: u64, refresh_interval: u64) -> (timeout: u64)
        requires
            old(self).wf(),
            old(self).can_compute(now, refresh_interval),
        ensures
            final(self).wf(),
            (*final(self), timeout) == old(self).computed(now, refresh_interval),
    {
        if self.refresh_interval != refresh_interval {
            self.base = now;
            self.last_synced_timestamp = now;
            self.refresh_interval = refresh_interval;
            return refresh_interval;
        }
        let next_frame: u64 = self.last_synced_timestamp + refresh_interval;
        if next_frame < now {
            let elapsed_micros: u64 = (now - self.base) / NANOS_PER_MICRO;
            let refresh_micros: u64 = refresh_interval / NANOS_PER_MICRO;
            let behind: u64 = elapsed_micros % refresh_micros;
            assert(behind * NANOS_PER_MICRO <= now - self.base) by (nonlinear_arith)
                requires
                    behind <= elapsed_micros,
                    elapsed_micros == (now - self.base) / (NANOS_PER_MICRO as int),
                    NANOS_PER_MICRO == 1000,
                    now >= self.base,
            ;
            self.last_synced_timestamp = now - behind * NANOS_PER_MICRO;
            0
        } else {
            self.last_synced_timestamp = next_frame;
            next_frame - now
        }
    }
}

} // verus!

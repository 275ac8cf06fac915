//! The reminder scheduler: an interval in seconds, the time the reminder was
//! last shown, and the once-per-second tick that decides whether to show it.
use vstd::prelude::*;

verus! {

/// Seconds between reminders when nothing else has been chosen (one hour).
pub const DEFAULT_INTERVAL_SECS: u64 = 3600;

/// The abstract state of the scheduler, in whole seconds.
pub struct ReminderModel {
    pub interval: nat,
    pub last_shown: nat,
}

/// A reminder is due at `now` when a whole interval has elapsed since it was
/// last shown. A clock reading earlier than `last_shown` counts as no time
/// elapsed.
pub open spec fn is_due(s: ReminderModel, now: nat) -> bool {
    now >= s.last_shown + s.interval
}

/// The state after one tick at time `now`: a due reminder restarts the
/// elapsed-time baseline at `now`; otherwise nothing changes.
pub open spec fn after_tick(s: ReminderModel, now: nat) -> ReminderModel {
    if is_due(s, now) {
        ReminderModel { interval: s.interval, last_shown: now }
    } else {
        s
    }
}

/// The state after the interval is replaced; the baseline is kept.
pub open spec fn with_interval(s: ReminderModel, interval: nat) -> ReminderModel {
    ReminderModel { interval, last_shown: s.last_shown }
}

/// Why an interval was refused.
#[derive(Debug, Clone, Copy, PartialEq, Eq, Structural)]
pub enum IntervalError {
    /// An interval of zero seconds would show the reminder on every tick.
    Zero,
}

/// Setting a positive interval makes it the interval that is read back.
pub proof fn lemma_set_then_get(s: ReminderModel, i: nat)
    requires
        i > 0,
    ensures
        with_interval(s, i).interval == i,
{
}

/// A tick at a due time fires and restarts the baseline at that time, keeping
/// the interval; a later tick fires again only once a whole interval has passed
/// since then, so the next tick does not fire unless the interval is that short.
pub proof fn lemma_fire_resets_baseline(s: ReminderModel, t1: nat, t2: nat)
    requires
        s.interval > 0,
        is_due(s, t1),
    ensures
        after_tick(s, t1) == (ReminderModel { interval: s.interval, last_shown: t1 }),
        is_due(after_tick(s, t1), t2) <==> t2 >= t1 + s.interval,
        t2 < t1 + s.interval ==> after_tick(after_tick(s, t1), t2) == after_tick(s, t1),
{
}

/// Shortening the interval to at most the time already elapsed at `set_at`
/// makes the reminder due at every tick from then on, without waiting for the
/// old schedule.
pub proof fn lemma_shortened_interval_fires(
    s: ReminderModel,
    new_interval: nat,
    set_at: nat,
    tick_at: nat,
)
    requires
        new_interval > 0,
        set_at >= s.last_shown + new_interval,
        tick_at >= set_at,
    ensures
        is_due(with_interval(s, new_interval), tick_at),
{
}

/// Shared scheduler state: the configured interval and the time (seconds on a
/// monotonic clock) at which the reminder was last shown.
pub struct AppState {
    interval_secs: u64,
    last_shown: u64,
}

impl View for AppState {
    type V = ReminderModel;

    closed spec fn view(&self) -> ReminderModel {
        ReminderModel { interval: self.interval_secs as nat, last_shown: self.last_shown as nat }
    }
}

impl AppState {
    /// The interval is always positive.
    pub open spec fn wf(&self) -> bool {
        self@.interval > 0
    }

    /// A fresh state at process start: the default interval, with `now` as the
    /// baseline.
    pub fn new(now: u64) -> (s: AppState)
        ensures
            s.wf(),
            s@.interval == DEFAULT_INTERVAL_SECS,
            s@.last_shown == now,
    {
        AppState { interval_secs: DEFAULT_INTERVAL_SECS, last_shown: now }
    }

    /// The current interval in seconds.
    pub fn get_settings(&self) -> (r: u64)
        ensures
            r == self@.interval,
    {
        self.interval_secs
    }

    /// The time at which the reminder was last shown.
    pub fn last_shown(&self) -> (r: u64)
        ensures
            r == self@.last_shown,
    {
        self.last_shown
    }

    /// Replaces the interval. Zero is refused and leaves the state as it was;
    /// the baseline is kept either way, so a shorter interval may make the
    /// next tick fire at once.
    pub fn set_interval(&mut self, interval: u64) -> (r: Result<(), IntervalError>)
        requires
            old(self).wf(),
        ensures
            final(self).wf(),
            interval == 0 ==> r == Err::<(), IntervalError>(IntervalError::Zero) && final(self)@
                == old(self)@,
            interval > 0 ==> r is Ok && final(self)@ == with_interval(old(self)@, interval as nat),
    {
        if interval == 0 {
            return Err(IntervalError::Zero);
        }
        self.interval_secs = interval;
        Ok(())
    }

    /// One tick of the scheduler at time `now`. Returns whether the reminder
    /// must be shown; when it is, `now` becomes the new baseline.
    pub fn tick(&mut self, now: u64) -> (fire: bool)
        requires
            old(self).wf(),
        ensures
            final(self).wf(),
            fire == is_due(old(self)@, now as nat),
            final(self)@ == after_tick(old(self)@, now as nat),
            final(self)@.last_shown >= old(self)@.last_shown,
    {
        let fire = now >= self.last_shown && now - self.last_shown >= self.interval_secs;
        if fire {
            self.last_shown = now;
        }
        fire
    }
}

} // verus!

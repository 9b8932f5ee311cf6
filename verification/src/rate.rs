//! Throughput measurement over windows of one second.
//!
//! Time is a count of milliseconds that the caller reads from a clock of its
//! choice; it only has to move forward.

use vstd::prelude::*;

verus! {

/// The length of a window in milliseconds.
pub const WINDOW_MILLIS: u64 = 1000;

/// A number as a counter can hold it: numbers beyond `u64::MAX` are held at
/// `u64::MAX`.
pub open spec fn held(value: int) -> int {
    if value <= u64::MAX {
        value
    } else {
        u64::MAX as int
    }
}

/// Mathematical model of the monitor.
pub struct Meter {
    /// The samples seen since the last boundary was crossed.
    pub count: int,
    /// The count of the last completed window: the published rate.
    pub rate: int,
    /// The time from which on a tick completes the running window.
    pub next_boundary: int,
}

impl Meter {
    /// Counts and times are numbers that a counter can hold.
    pub open spec fn wf(self) -> bool {
        &&& 0 <= self.count <= u64::MAX
        &&& 0 <= self.rate <= u64::MAX
        &&& 0 <= self.next_boundary <= u64::MAX
    }

    /// A monitor whose first window begins at `now`.  Nothing is published
    /// yet, so the rate is zero.
    pub open spec fn starting(now: int) -> Meter {
        Meter { count: 0, rate: 0, next_boundary: held(now + WINDOW_MILLIS) }
    }

    /// `samples` more samples were seen.
    pub open spec fn record(self, samples: int) -> Meter {
        Meter { count: held(self.count + samples), ..self }
    }

    /// A tick at time `now`.  At or behind the boundary it publishes the
    /// count, starts a new count and sets the next boundary one window
    /// behind `now`; before the boundary it changes nothing.
    pub open spec fn tick(self, now: int) -> Meter {
        if now >= self.next_boundary {
            Meter { count: 0, rate: self.count, next_boundary: held(now + WINDOW_MILLIS) }
        } else {
            self
        }
    }
}

/// Counts the samples of the running window and publishes the count of the
/// last completed one.
pub struct RateWindow {
    count: u64,
    rate: u64,
    next_boundary: u64,
}

impl View for RateWindow {
    type V = Meter;

    closed spec fn view(&self) -> Meter {
        Meter {
            count: self.count as int,
            rate: self.rate as int,
            next_boundary: self.next_boundary as int,
        }
    }
}

impl RateWindow {
    /// A monitor whose first window begins at `now`.
    pub fn new(now: u64) -> (monitor: RateWindow)
        ensures
            monitor@ == Meter::starting(now as int),
            monitor@.wf(),
    {
        RateWindow { count: 0, rate: 0, next_boundary: now.saturating_add(WINDOW_MILLIS) }
    }

    /// Counts one sample.
    pub fn record_sample(&mut self)
        ensures
            final(self)@ == old(self)@.record(1),
            old(self)@.wf(),
            final(self)@.wf(),
    {
        self.count = self.count.saturating_add(1);
    }

    /// Counts `samples` samples at once.
    pub fn record_samples(&mut self, samples: usize)
        ensures
            final(self)@ == old(self)@.record(samples as int),
            old(self)@.wf(),
            final(self)@.wf(),
    {
        self.count = self.count.saturating_add(samples as u64);
    }

    /// Closes the running window if `now` has reached its boundary.
    pub fn tick(&mut self, now: u64)
        ensures
            final(self)@ == old(self)@.tick(now as int),
            old(self)@.wf(),
            final(self)@.wf(),
    {
        if now >= self.next_boundary {
            self.rate = self.count;
            self.count = 0;
            self.next_boundary = now.saturating_add(WINDOW_MILLIS);
        }
    }

    /// The count of the last completed window; zero before the first
    /// boundary.
    pub fn current_rate(&self) -> (rate: u64)
        ensures
            rate == self@.rate,
            self@.wf(),
    {
        self.rate
    }

    /// The samples counted in the running window.
    pub fn count(&self) -> (count: u64)
        ensures
            count == self@.count,
            self@.wf(),
    {
        self.count
    }

    /// The time at which the running window ends.
    pub fn next_boundary(&self) -> (boundary: u64)
        ensures
            boundary == self@.next_boundary,
            self@.wf(),
    {
        self.next_boundary
    }
}

/// Counting sample by sample and counting all at once agree.
pub proof fn lemma_record_adds_up(meter: Meter, first: int, second: int)
    requires
        meter.wf(),
        0 <= first,
        0 <= second,
    ensures
        meter.record(first).record(second) == meter.record(first + second),
        meter.record(0) == meter,
        meter.record(first).wf(),
{
}

/// A window publishes what it counted.  After `samples` samples a tick at or
/// behind the boundary publishes the count as the rate and starts the next
/// count at zero, with the boundary one window behind the tick.  A later tick
/// before that boundary changes nothing, so the rate stays.
pub proof fn lemma_window_publishes_count(meter: Meter, samples: int, now: int, later: int)
    requires
        meter.wf(),
        0 <= samples,
        meter.count + samples <= u64::MAX,
        meter.next_boundary <= now,
        now + WINDOW_MILLIS <= u64::MAX,
        now <= later < now + WINDOW_MILLIS,
    ensures
        meter.record(samples).tick(now).rate == meter.count + samples,
        meter.record(samples).tick(now).count == 0,
        meter.record(samples).tick(now).next_boundary == now + WINDOW_MILLIS,
        meter.record(samples).tick(now).tick(later) == meter.record(samples).tick(now),
{
}

/// Before the boundary a tick publishes nothing: the rate is that of the
/// last completed window however many samples have come since.
pub proof fn lemma_rate_holds_within_window(meter: Meter, samples: int, now: int)
    requires
        now < meter.next_boundary,
    ensures
        meter.record(samples).tick(now).rate == meter.rate,
        meter.record(samples).tick(now).count == meter.record(samples).count,
        meter.record(samples).tick(now).next_boundary == meter.next_boundary,
{
}

} // verus!

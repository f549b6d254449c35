//! Durations and instants with the millisecond clock of a browser.

use vstd::prelude::*;

verus! {

pub const NANOS_PER_SEC: u32 = 1_000_000_000;

pub const NANOS_PER_MILLI: u32 = 1_000_000;

/// A span of time in whole seconds and a fraction of a second.
#[derive(Clone, Copy, Debug, PartialEq, Eq, Structural, PartialOrd, Ord, Hash)]
pub struct Duration {
    secs: u64,
    nanos: u32,
}

impl Duration {
    #[verifier::type_invariant]
    spec fn fraction_is_below_a_second(self) -> bool {
        self.nanos < NANOS_PER_SEC
    }

    /// The length in nanoseconds.
    pub closed spec fn total_nanos(self) -> nat {
        (self.secs * NANOS_PER_SEC + self.nanos) as nat
    }

    /// The length in whole milliseconds.
    pub open spec fn millis(self) -> nat {
        self.total_nanos() / 1_000_000
    }

    /// The least number of milliseconds that is not below the length.
    pub open spec fn ceil_millis(self) -> nat {
        ((self.total_nanos() + 999_999) / 1_000_000) as nat
    }

    /// The duration of `millis` milliseconds.
    pub closed spec fn of_millis(millis: u64) -> Duration {
        Duration { secs: millis / 1000, nanos: ((millis % 1000) * 1_000_000) as u32 }
    }

    /// A duration of `secs` seconds and `nanos` nanoseconds.
    pub fn new(secs: u64, nanos: u32) -> (duration: Duration)
        requires
            nanos < NANOS_PER_SEC,
        ensures
            duration.total_nanos() == secs * 1_000_000_000 + nanos,
    {
        Duration { secs, nanos }
    }

    /// A duration of `millis` milliseconds.
    pub fn from_millis(millis: u64) -> (duration: Duration)
        ensures
            duration == Duration::of_millis(millis),
            duration.total_nanos() == millis * 1_000_000,
            duration.millis() == millis,
    {
        let secs: u64 = millis / 1000;
        let fraction: u64 = millis % 1000;
        let duration = Duration { secs, nanos: fraction as u32 * NANOS_PER_MILLI };
        assert(duration.total_nanos() == millis * 1_000_000);
        duration
    }

    /// The length in whole milliseconds.
    pub fn as_millis(&self) -> (millis: u128)
        ensures
            millis == self.millis(),
            millis < (u64::MAX + 1) * 1000,
    {
        proof {
            use_type_invariant(self);
        }
        assert(self.total_nanos() / 1_000_000 == self.secs * 1000 + self.nanos / 1_000_000);
        self.secs as u128 * 1000 + (self.nanos / NANOS_PER_MILLI) as u128
    }

    /// The fraction of a second, in nanoseconds.
    pub fn subsec_nanos(&self) -> (nanos: u32)
        ensures
            nanos == self.total_nanos() % 1_000_000_000,
    {
        proof {
            use_type_invariant(self);
        }
        self.nanos
    }
}

/// A reading of the browser's monotonic clock, in milliseconds.
#[derive(Clone, Copy, Debug, PartialEq, Eq, Structural, PartialOrd, Ord, Hash)]
pub struct Instant(u64);

impl Instant {
    /// The reading.
    pub closed spec fn ms(self) -> u64 {
        self.0
    }

    /// The instant at which the clock reads `ms`.
    pub closed spec fn at(ms: u64) -> Instant {
        Instant(ms)
    }

    /// The instant that lies `by` milliseconds ahead, or back if that is negative,
    /// is `to`; it is none if the clock cannot read so.
    pub open spec fn is_moved(self, by: int, to: Option<Instant>) -> bool {
        match to {
            Some(instant) => instant.ms() - self.ms() == by,
            None => !(0 <= self.ms() + by <= u64::MAX),
        }
    }

    /// The instant at which the clock reads `now_ms`.
    pub fn now(now_ms: u64) -> (instant: Instant)
        ensures
            instant == Instant::at(now_ms),
            instant.ms() == now_ms,
    {
        Instant(now_ms)
    }

    /// The time since this instant, when the clock reads `now_ms`. It is zero
    /// if the instant lies ahead.
    pub fn elapsed(&self, now_ms: u64) -> (duration: Duration)
        ensures
            duration == Duration::of_millis(
                saturating_ms(now_ms as int, self.ms() as int) as u64,
            ),
            duration.total_nanos() == saturating_ms(now_ms as int, self.ms() as int) * 1_000_000,
    {
        Duration::from_millis(now_ms.saturating_sub(self.0))
    }

    /// The time from `earlier` to this instant, zero if `earlier` is later.
    pub fn duration_since(&self, earlier: Instant) -> (duration: Duration)
        ensures
            duration == Duration::of_millis(
                saturating_ms(self.ms() as int, earlier.ms() as int) as u64,
            ),
            duration.total_nanos() == saturating_ms(self.ms() as int, earlier.ms() as int)
                * 1_000_000,
    {
        Duration::from_millis(self.0.saturating_sub(earlier.0))
    }

    /// The time from `earlier` to this instant, zero if `earlier` is later.
    pub fn saturating_duration_since(&self, earlier: Instant) -> (duration: Duration)
        ensures
            duration == Duration::of_millis(
                saturating_ms(self.ms() as int, earlier.ms() as int) as u64,
            ),
            duration.total_nanos() == saturating_ms(self.ms() as int, earlier.ms() as int)
                * 1_000_000,
    {
        self.duration_since(earlier)
    }

    /// The instant that lies `duration` ahead, in whole milliseconds, if the
    /// clock can read that far.
    pub fn checked_add(&self, duration: Duration) -> (instant: Option<Instant>)
        ensures
            match instant {
                Some(i) => i.ms() == self.ms() + duration.millis(),
                None => self.ms() + duration.millis() > u64::MAX,
            },
            self.is_moved(duration.millis() as int, instant),
    {
        let millis: u128 = duration.as_millis();
        if millis > u64::MAX as u128 {
            return None;
        }
        match self.0.checked_add(millis as u64) {
            Some(ms) => Some(Instant(ms)),
            None => None,
        }
    }

    /// The instant that lies `duration` back, in whole milliseconds, if the
    /// clock has been running that long.
    pub fn checked_sub(&self, duration: Duration) -> (instant: Option<Instant>)
        ensures
            match instant {
                Some(i) => i.ms() == self.ms() - duration.millis(),
                None => duration.millis() > self.ms(),
            },
            self.is_moved(-duration.millis(), instant),
    {
        let millis: u128 = duration.as_millis();
        if millis > u64::MAX as u128 {
            return None;
        }
        match self.0.checked_sub(millis as u64) {
            Some(ms) => Some(Instant(ms)),
            None => None,
        }
    }
}

/// The milliseconds from `earlier` to `later`, none if it is not earlier.
pub open spec fn saturating_ms(later: int, earlier: int) -> int {
    if later > earlier {
        later - earlier
    } else {
        0
    }
}

impl std::ops::Add<Duration> for Instant {
    type Output = Instant;

    fn add(self, rhs: Duration) -> (sum: Instant)
        ensures
            sum.ms() == self.ms() + rhs.millis(),
    {
        Instant(self.0 + rhs.as_millis() as u64)
    }
}

impl vstd::std_specs::ops::AddSpecImpl<Duration> for Instant {
    open spec fn obeys_add_spec() -> bool {
        true
    }

    open spec fn add_req(self, rhs: Duration) -> bool {
        self.ms() + rhs.millis() <= u64::MAX
    }

    open spec fn add_spec(self, rhs: Duration) -> Instant {
        Instant::at((self.ms() + rhs.millis()) as u64)
    }
}

impl std::ops::AddAssign<Duration> for Instant {
    fn add_assign(&mut self, rhs: Duration)
        requires
            old(self).ms() + rhs.millis() <= u64::MAX,
        ensures
            final(self).ms() == old(self).ms() + rhs.millis(),
    {
        *self = *self + rhs;
    }
}

impl std::ops::SubAssign<Duration> for Instant {
    fn sub_assign(&mut self, rhs: Duration)
        requires
            rhs.millis() <= old(self).ms(),
        ensures
            final(self).ms() == old(self).ms() - rhs.millis(),
    {
        *self = Instant(self.0 - rhs.as_millis() as u64);
    }
}

impl std::ops::Sub<Instant> for Instant {
    type Output = Duration;

    fn sub(self, rhs: Instant) -> (duration: Duration)
        ensures
            duration.total_nanos() == saturating_ms(self.ms() as int, rhs.ms() as int) * 1_000_000,
    {
        Duration::from_millis(self.0.saturating_sub(rhs.0))
    }
}

impl vstd::std_specs::ops::SubSpecImpl<Instant> for Instant {
    open spec fn obeys_sub_spec() -> bool {
        true
    }

    open spec fn sub_req(self, rhs: Instant) -> bool {
        true
    }

    open spec fn sub_spec(self, rhs: Instant) -> Duration {
        Duration::of_millis(saturating_ms(self.ms() as int, rhs.ms() as int) as u64)
    }
}

/// Whoever adds a duration to an instant and measures the time between the two
/// finds the whole milliseconds of the duration, and finds the way back.
pub proof fn measuring_undoes_adding(start: Instant, end: Instant, duration: Duration)
    requires
        end.ms() == start.ms() + duration.millis(),
    ensures
        saturating_ms(end.ms() as int, start.ms() as int) == duration.millis(),
        saturating_ms(start.ms() as int, end.ms() as int) == 0,
        end.ms() - duration.millis() == start.ms(),
{
}

/// Rounding up to milliseconds loses less than one, and never shortens.
pub proof fn rounding_up_never_shortens(duration: Duration)
    ensures
        duration.total_nanos() <= duration.ceil_millis() * 1_000_000,
        duration.ceil_millis() * 1_000_000 < duration.total_nanos() + 1_000_000,
        duration.ceil_millis() == duration.millis() + (if duration.total_nanos() % 1_000_000 != 0 {
            1int
        } else {
            0
        }),
{
}

/// Whole milliseconds are counted down: they fit into the duration, and one more
/// does not.
pub proof fn whole_milliseconds_fit(duration: Duration)
    ensures
        duration.millis() * 1_000_000 <= duration.total_nanos(),
        duration.total_nanos() < (duration.millis() + 1) * 1_000_000,
{
}

/// A duration that is made of milliseconds has that many, and is not rounded.
pub proof fn milliseconds_are_exact(ms: u64)
    ensures
        Duration::of_millis(ms).total_nanos() == ms * 1_000_000,
        Duration::of_millis(ms).millis() == ms,
        Duration::of_millis(ms).ceil_millis() == ms,
        Instant::at(ms).ms() == ms,
{
    assert(Duration::of_millis(ms).total_nanos() == ms * 1_000_000);
}

/// The time between two readings of the clock leads from the earlier to the
/// later one. Against the clock there is none.
pub proof fn time_leads_from_the_earlier_reading(later: int, earlier: int)
    ensures
        earlier <= later ==> earlier + saturating_ms(later, earlier) == later,
        later <= earlier ==> saturating_ms(later, earlier) == 0,
{
}

/// Going back undoes going ahead, and the time between the two instants is what
/// was gone. There is an instant wherever the clock can read it.
pub proof fn going_back_undoes_going_ahead(
    start: Instant,
    by: int,
    ahead: Option<Instant>,
    back: Option<Instant>,
)
    requires
        by >= 0,
        start.is_moved(by, ahead),
        ahead matches Some(instant) ==> instant.is_moved(-by, back),
    ensures
        ahead is Some <==> start.ms() + by <= u64::MAX,
        ahead matches Some(instant) ==> {
            &&& saturating_ms(instant.ms() as int, start.ms() as int) == by
            &&& back matches Some(again) && again.ms() == start.ms()
        },
{
}

} // verus!

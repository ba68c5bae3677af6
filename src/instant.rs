//! Readings of the host's monotonic clock.

use vstd::prelude::*;

use crate::duration::{compare_nanos, is_duration_nanos, Duration};
use crate::time_stamp::{is_time_stamp, time_stamp_nanos, time_stamp_to_duration};

verus! {

/// A reading of the monotonic clock: a span since the clock's origin.
///
/// Its view is that span in nanoseconds.
#[derive(Clone, Copy, Debug, PartialEq, Eq, Hash, Ord, Structural)]
pub struct Instant(Duration);

impl View for Instant {
    type V = int;

    closed spec fn view(&self) -> int {
        self.0@
    }
}

/// What `a.duration_since(b)` gives for instants `a` and `b` nanoseconds from
/// the origin: the span between them, or zero when `b` is the later.
pub open spec fn saturating_span(a: int, b: int) -> int {
    if a >= b {
        a - b
    } else {
        0
    }
}

impl Instant {
    /// The instant `n` nanoseconds after the origin.
    pub closed spec fn from_nanos_spec(n: int) -> Instant {
        Instant(Duration::from_nanos_spec(n))
    }

    /// The instant that a host timer reading stands for. `time_stamp` holds
    /// the bits of a double counting milliseconds since the clock's origin.
    pub fn from_time_stamp(time_stamp: u64) -> (r: Instant)
        requires
            is_time_stamp(time_stamp),
        ensures
            r@ == time_stamp_nanos(time_stamp),
    {
        Instant(time_stamp_to_duration(time_stamp))
    }

    /// The time from `earlier` to `self`, or zero when `earlier` is the later.
    pub fn duration_since(&self, earlier: Instant) -> (r: Duration)
        ensures
            r@ == saturating_span(self@, earlier@),
    {
        self.saturating_duration_since(earlier)
    }

    /// The time from `earlier` to `self`, or `None` when `earlier` is the
    /// later.
    pub fn checked_duration_since(&self, earlier: Instant) -> (r: Option<Duration>)
        ensures
            match r {
                Some(d) => self@ >= earlier@ && d@ == self@ - earlier@,
                None => self@ < earlier@,
            },
    {
        self.0.checked_sub(earlier.0)
    }

    /// The time from `earlier` to `self`, or zero when `earlier` is the later.
    pub fn saturating_duration_since(&self, earlier: Instant) -> (r: Duration)
        ensures
            r@ == saturating_span(self@, earlier@),
    {
        match self.checked_duration_since(earlier) {
            Some(d) => d,
            None => Duration::zero(),
        }
    }

    /// The instant `duration` after `self`, or `None` when it cannot be held.
    pub fn checked_add(&self, duration: Duration) -> (r: Option<Instant>)
        ensures
            match r {
                Some(i) => is_duration_nanos(self@ + duration@) && i@ == self@ + duration@,
                None => !is_duration_nanos(self@ + duration@),
            },
    {
        match self.0.checked_add(duration) {
            Some(d) => Some(Instant(d)),
            None => None,
        }
    }

    /// The instant `duration` before `self`, or `None` when that is before the
    /// origin.
    pub fn checked_sub(&self, duration: Duration) -> (r: Option<Instant>)
        ensures
            match r {
                Some(i) => self@ >= duration@ && i@ == self@ - duration@,
                None => self@ < duration@,
            },
    {
        match self.0.checked_sub(duration) {
            Some(d) => Some(Instant(d)),
            None => None,
        }
    }
}

impl core::ops::Add<Duration> for Instant {
    type Output = Instant;

    fn add(self, rhs: Duration) -> (r: Instant)
        ensures
            r@ == self@ + rhs@,
    {
        let r = self.checked_add(rhs).expect("overflow when adding duration to instant");
        proof {
            use_type_invariant(&r.0);
            r.0.lemma_canonical();
        }
        r
    }
}

impl vstd::std_specs::ops::AddSpecImpl<Duration> for Instant {
    open spec fn obeys_add_spec() -> bool {
        true
    }

    open spec fn add_req(self, rhs: Duration) -> bool {
        is_duration_nanos(self@ + rhs@)
    }

    open spec fn add_spec(self, rhs: Duration) -> Instant {
        Instant::from_nanos_spec(self@ + rhs@)
    }
}

impl core::ops::Sub<Duration> for Instant {
    type Output = Instant;

    fn sub(self, rhs: Duration) -> (r: Instant)
        ensures
            r@ == self@ - rhs@,
    {
        let r = self.checked_sub(rhs).expect("overflow when subtracting duration from instant");
        proof {
            use_type_invariant(&r.0);
            r.0.lemma_canonical();
        }
        r
    }
}

impl vstd::std_specs::ops::SubSpecImpl<Duration> for Instant {
    open spec fn obeys_sub_spec() -> bool {
        true
    }

    open spec fn sub_req(self, rhs: Duration) -> bool {
        self@ >= rhs@
    }

    open spec fn sub_spec(self, rhs: Duration) -> Instant {
        Instant::from_nanos_spec(self@ - rhs@)
    }
}

impl core::ops::Sub<Instant> for Instant {
    type Output = Duration;

    /// The time from `rhs` to `self`, or zero when `rhs` is the later.
    fn sub(self, rhs: Instant) -> (r: Duration)
        ensures
            r@ == saturating_span(self@, rhs@),
    {
        let r = self.duration_since(rhs);
        proof {
            use_type_invariant(&r);
            r.lemma_canonical();
        }
        r
    }
}

impl vstd::std_specs::ops::SubSpecImpl<Instant> for Instant {
    open spec fn obeys_sub_spec() -> bool {
        true
    }

    open spec fn sub_req(self, rhs: Instant) -> bool {
        true
    }

    open spec fn sub_spec(self, rhs: Instant) -> Duration {
        Duration::from_nanos_spec(saturating_span(self@, rhs@))
    }
}

impl PartialOrd for Instant {
    fn partial_cmp(&self, other: &Instant) -> (r: Option<core::cmp::Ordering>) {
        self.0.partial_cmp(&other.0)
    }
}

impl vstd::std_specs::cmp::PartialOrdSpecImpl for Instant {
    open spec fn obeys_partial_cmp_spec() -> bool {
        true
    }

    open spec fn partial_cmp_spec(&self, other: &Instant) -> Option<core::cmp::Ordering> {
        Some(compare_nanos(self@, other@))
    }
}

} // verus!

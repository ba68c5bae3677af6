//! Readings of the host's wall clock.

use vstd::prelude::*;

use crate::duration::{compare_nanos, is_duration_nanos, Duration, NANOS_PER_MILLI};

verus! {

/// A reading of the wall clock: a span since the Unix epoch,
/// 1970-01-01T00:00:00Z.
///
/// Its view is that span in nanoseconds.
#[derive(Clone, Copy, Debug, PartialEq, Eq, Hash, Ord, Structural)]
pub struct SystemTime(Duration);

impl View for SystemTime {
    type V = int;

    closed spec fn view(&self) -> int {
        self.0@
    }
}

/// The error of [`SystemTime::duration_since`] when the time given is later
/// than the time asked: it holds how much later.
///
/// Its view is that span in nanoseconds.
#[derive(Clone, Debug)]
pub struct SystemTimeError(Duration);

impl View for SystemTimeError {
    type V = int;

    closed spec fn view(&self) -> int {
        self.0@
    }
}

impl SystemTimeError {
    /// How much later the time given was than the time asked.
    pub fn duration(&self) -> (r: Duration)
        ensures
            r@ == self@,
    {
        self.0
    }

    /// The error described in words.
    pub fn message(&self) -> (r: String)
        ensures
            r@ == "second time provided was later than self"@,
    {
        "second time provided was later than self".to_owned()
    }
}

impl SystemTime {
    /// The wall-clock time `n` nanoseconds after the epoch.
    pub closed spec fn from_nanos_spec(n: int) -> SystemTime {
        SystemTime(Duration::from_nanos_spec(n))
    }

    /// The Unix epoch itself.
    pub fn unix_epoch() -> (r: SystemTime)
        ensures
            r@ == 0,
    {
        SystemTime(Duration::zero())
    }

    /// The span from the epoch to `self`.
    pub fn since_epoch(&self) -> (r: Duration)
        ensures
            r@ == self@,
    {
        self.0
    }

    /// The time that a host clock reading of `millis` milliseconds since the
    /// epoch stands for.
    pub fn from_unix_millis(millis: u64) -> (r: SystemTime)
        ensures
            r@ == millis * NANOS_PER_MILLI,
    {
        SystemTime(Duration::from_millis(millis))
    }

    /// The time from `earlier` to `self`; when `earlier` is the later, an
    /// error that holds the time from `self` to `earlier`.
    pub fn duration_since(&self, earlier: SystemTime) -> (r: Result<Duration, SystemTimeError>)
        ensures
            match r {
                Ok(d) => self@ >= earlier@ && d@ == self@ - earlier@,
                Err(e) => self@ < earlier@ && e@ == earlier@ - self@,
            },
    {
        match self.0.checked_sub(earlier.0) {
            Some(d) => Ok(d),
            None => Err(SystemTimeError(earlier.0.checked_sub(self.0).unwrap())),
        }
    }

    /// The time `duration` after `self`, or `None` when it cannot be held.
    pub fn checked_add(&self, duration: Duration) -> (r: Option<SystemTime>)
        ensures
            match r {
                Some(t) => is_duration_nanos(self@ + duration@) && t@ == self@ + duration@,
                None => !is_duration_nanos(self@ + duration@),
            },
    {
        match self.0.checked_add(duration) {
            Some(d) => Some(SystemTime(d)),
            None => None,
        }
    }

    /// The time `duration` before `self`, or `None` when that is before the
    /// epoch.
    pub fn checked_sub(&self, duration: Duration) -> (r: Option<SystemTime>)
        ensures
            match r {
                Some(t) => self@ >= duration@ && t@ == self@ - duration@,
                None => self@ < duration@,
            },
    {
        match self.0.checked_sub(duration) {
            Some(d) => Some(SystemTime(d)),
            None => None,
        }
    }
}

impl core::ops::Add<Duration> for SystemTime {
    type Output = SystemTime;

    fn add(self, rhs: Duration) -> (r: SystemTime)
        ensures
            r@ == self@ + rhs@,
    {
        let r = self.checked_add(rhs).expect("overflow when adding duration to instant");
        proof {
            use_type_invariant(&r.0);
            r.0.lemma_canonical();
        }
        r
    }
}

impl vstd::std_specs::ops::AddSpecImpl<Duration> for SystemTime {
    open spec fn obeys_add_spec() -> bool {
        true
    }

    open spec fn add_req(self, rhs: Duration) -> bool {
        is_duration_nanos(self@ + rhs@)
    }

    open spec fn add_spec(self, rhs: Duration) -> SystemTime {
        SystemTime::from_nanos_spec(self@ + rhs@)
    }
}

impl core::ops::Sub<Duration> for SystemTime {
    type Output = SystemTime;

    fn sub(self, rhs: Duration) -> (r: SystemTime)
        ensures
            r@ == self@ - rhs@,
    {
        let r = self.checked_sub(rhs).expect("overflow when subtracting duration from instant");
        proof {
            use_type_invariant(&r.0);
            r.0.lemma_canonical();
        }
        r
    }
}

impl vstd::std_specs::ops::SubSpecImpl<Duration> for SystemTime {
    open spec fn obeys_sub_spec() -> bool {
        true
    }

    open spec fn sub_req(self, rhs: Duration) -> bool {
        self@ >= rhs@
    }

    open spec fn sub_spec(self, rhs: Duration) -> SystemTime {
        SystemTime::from_nanos_spec(self@ - rhs@)
    }
}

impl PartialOrd for SystemTime {
    fn partial_cmp(&self, other: &SystemTime) -> (r: Option<core::cmp::Ordering>) {
        self.0.partial_cmp(&other.0)
    }
}

impl vstd::std_specs::cmp::PartialOrdSpecImpl for SystemTime {
    open spec fn obeys_partial_cmp_spec() -> bool {
        true
    }

    open spec fn partial_cmp_spec(&self, other: &SystemTime) -> Option<core::cmp::Ordering> {
        Some(compare_nanos(self@, other@))
    }
}

} // verus!

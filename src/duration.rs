//! A span of time as whole seconds and sub-second nanoseconds.

use vstd::prelude::*;
use vstd::arithmetic::div_mod::{
    lemma_fundamental_div_mod, lemma_fundamental_div_mod_converse, lemma_mod_bound,
};

verus! {

/// Nanoseconds in one second.
pub const NANOS_PER_SEC: u32 = 1_000_000_000;

/// Nanoseconds in one millisecond.
pub const NANOS_PER_MILLI: u32 = 1_000_000;

/// Milliseconds in one second.
pub const MILLIS_PER_SEC: u64 = 1_000;

/// The largest number of nanoseconds a [`Duration`] can hold.
pub open spec fn max_duration_nanos() -> int {
    u64::MAX * NANOS_PER_SEC + (NANOS_PER_SEC - 1)
}

/// Whether `n` nanoseconds can be held by a [`Duration`].
pub open spec fn is_duration_nanos(n: int) -> bool {
    0 <= n <= max_duration_nanos()
}

/// How `a` nanoseconds compare with `b`.
pub open spec fn compare_nanos(a: int, b: int) -> core::cmp::Ordering {
    if a < b {
        core::cmp::Ordering::Less
    } else if a > b {
        core::cmp::Ordering::Greater
    } else {
        core::cmp::Ordering::Equal
    }
}

/// A span of time: whole seconds and the nanoseconds of the second under way.
///
/// Its view is the whole span in nanoseconds.
#[derive(Clone, Copy, Debug, PartialEq, Eq, Hash, Ord, Structural)]
pub struct Duration {
    secs: u64,
    nanos: u32,
}

impl View for Duration {
    type V = int;

    closed spec fn view(&self) -> int {
        self.secs * NANOS_PER_SEC + self.nanos
    }
}

impl Duration {
    #[verifier::type_invariant]
    pub(crate) closed spec fn inv(self) -> bool {
        self.nanos < NANOS_PER_SEC
    }

    /// The duration of `n` nanoseconds, for `n` that [`is_duration_nanos`].
    pub closed spec fn from_nanos_spec(n: int) -> Duration {
        Duration { secs: (n / NANOS_PER_SEC as int) as u64, nanos: (n % NANOS_PER_SEC as int) as u32 }
    }

    /// A duration is the one its view names.
    pub(crate) proof fn lemma_canonical(self)
        requires
            self.inv(),
        ensures
            self == Duration::from_nanos_spec(self@),
            is_duration_nanos(self@),
    {
        lemma_fundamental_div_mod_converse(
            self@,
            NANOS_PER_SEC as int,
            self.secs as int,
            self.nanos as int,
        );
    }

    /// The spec constructor gives back the nanoseconds it was built from.
    pub broadcast proof fn lemma_from_nanos_spec(n: int)
        requires
            is_duration_nanos(n),
        ensures
            #[trigger] Duration::from_nanos_spec(n)@ == n,
    {
        let d = NANOS_PER_SEC as int;
        lemma_fundamental_div_mod(n, d);
        lemma_mod_bound(n, d);
        assert(0 <= n / d <= u64::MAX) by (nonlinear_arith)
            requires
                n == d * (n / d) + n % d,
                0 <= n % d < d,
                d == NANOS_PER_SEC,
                0 <= n <= max_duration_nanos(),
        ;
    }

    /// The empty duration.
    pub fn zero() -> (r: Duration)
        ensures
            r@ == 0,
    {
        Duration { secs: 0, nanos: 0 }
    }

    /// The longest duration there is.
    pub fn maximum() -> (r: Duration)
        ensures
            r@ == max_duration_nanos(),
    {
        Duration { secs: u64::MAX, nanos: NANOS_PER_SEC - 1 }
    }

    /// A duration of `secs` whole seconds.
    pub fn from_secs(secs: u64) -> (r: Duration)
        ensures
            r@ == secs * NANOS_PER_SEC,
    {
        Duration { secs, nanos: 0 }
    }

    /// A duration of `millis` milliseconds.
    pub fn from_millis(millis: u64) -> (r: Duration)
        ensures
            r@ == millis * NANOS_PER_MILLI,
    {
        let secs = millis / MILLIS_PER_SEC;
        let rest = (millis % MILLIS_PER_SEC) as u32;
        Duration { secs, nanos: rest * NANOS_PER_MILLI }
    }

    /// A duration of `nanos` nanoseconds.
    pub fn from_nanos(nanos: u64) -> (r: Duration)
        ensures
            r@ == nanos,
    {
        let secs = nanos / (NANOS_PER_SEC as u64);
        let rest = (nanos % (NANOS_PER_SEC as u64)) as u32;
        proof {
            lemma_fundamental_div_mod(nanos as int, NANOS_PER_SEC as int);
        }
        Duration { secs, nanos: rest }
    }

    /// A duration of `secs` seconds and `nanos` nanoseconds; whole seconds in
    /// `nanos` are carried into the seconds.
    pub fn new(secs: u64, nanos: u32) -> (r: Duration)
        requires
            secs + nanos as int / NANOS_PER_SEC as int <= u64::MAX,
        ensures
            r@ == secs * NANOS_PER_SEC + nanos,
    {
        let extra = (nanos / NANOS_PER_SEC) as u64;
        let sub = nanos % NANOS_PER_SEC;
        Duration { secs: secs + extra, nanos: sub }
    }

    /// The whole seconds of the span.
    pub fn as_secs(&self) -> (r: u64)
        ensures
            r == self@ / (NANOS_PER_SEC as int),
    {
        proof {
            use_type_invariant(self);
            lemma_fundamental_div_mod_converse(
                self@,
                NANOS_PER_SEC as int,
                self.secs as int,
                self.nanos as int,
            );
        }
        self.secs
    }

    /// The nanoseconds of the span past its whole seconds.
    pub fn subsec_nanos(&self) -> (r: u32)
        ensures
            r == self@ % (NANOS_PER_SEC as int),
    {
        proof {
            use_type_invariant(self);
            lemma_fundamental_div_mod_converse(
                self@,
                NANOS_PER_SEC as int,
                self.secs as int,
                self.nanos as int,
            );
        }
        self.nanos
    }

    /// The whole span in nanoseconds.
    pub fn as_nanos(&self) -> (r: u128)
        ensures
            r == self@,
    {
        proof {
            use_type_invariant(self);
            assert(self.secs * 1_000_000_000 + self.nanos < 0x1_0000_0000_0000_0000_0000_0000_0000_0000)
                by (nonlinear_arith)
                requires
                    self.secs <= u64::MAX,
                    self.nanos < 1_000_000_000,
            ;
        }
        (self.secs as u128) * (NANOS_PER_SEC as u128) + (self.nanos as u128)
    }

    /// The sum of two durations, or `None` when it is longer than the longest
    /// duration.
    pub fn checked_add(&self, rhs: Duration) -> (r: Option<Duration>)
        ensures
            match r {
                Some(d) => is_duration_nanos(self@ + rhs@) && d@ == self@ + rhs@,
                None => !is_duration_nanos(self@ + rhs@),
            },
    {
        proof {
            use_type_invariant(self);
            use_type_invariant(&rhs);
        }
        let nanos = self.nanos + rhs.nanos;
        match self.secs.checked_add(rhs.secs) {
            None => None,
            Some(secs) => {
                if nanos < NANOS_PER_SEC {
                    Some(Duration { secs, nanos })
                } else {
                    match secs.checked_add(1) {
                        None => None,
                        Some(secs) => Some(Duration { secs, nanos: nanos - NANOS_PER_SEC }),
                    }
                }
            },
        }
    }

    /// `self` less `rhs`, or `None` when `rhs` is the longer.
    pub fn checked_sub(&self, rhs: Duration) -> (r: Option<Duration>)
        ensures
            match r {
                Some(d) => self@ >= rhs@ && d@ == self@ - rhs@,
                None => self@ < rhs@,
            },
    {
        proof {
            use_type_invariant(self);
            use_type_invariant(&rhs);
        }
        if self.secs < rhs.secs {
            None
        } else if self.nanos >= rhs.nanos {
            Some(Duration { secs: self.secs - rhs.secs, nanos: self.nanos - rhs.nanos })
        } else if self.secs > rhs.secs {
            Some(
                Duration {
                    secs: self.secs - rhs.secs - 1,
                    nanos: self.nanos + NANOS_PER_SEC - rhs.nanos,
                },
            )
        } else {
            None
        }
    }
}

impl PartialOrd for Duration {
    fn partial_cmp(&self, other: &Duration) -> (r: Option<core::cmp::Ordering>) {
        proof {
            use_type_invariant(self);
            use_type_invariant(other);
        }
        if self.secs < other.secs {
            Some(core::cmp::Ordering::Less)
        } else if self.secs > other.secs {
            Some(core::cmp::Ordering::Greater)
        } else if self.nanos < other.nanos {
            Some(core::cmp::Ordering::Less)
        } else if self.nanos > other.nanos {
            Some(core::cmp::Ordering::Greater)
        } else {
            Some(core::cmp::Ordering::Equal)
        }
    }
}

impl vstd::std_specs::cmp::PartialOrdSpecImpl for Duration {
    open spec fn obeys_partial_cmp_spec() -> bool {
        true
    }

    open spec fn partial_cmp_spec(&self, other: &Duration) -> Option<core::cmp::Ordering> {
        Some(compare_nanos(self@, other@))
    }
}

} // verus!

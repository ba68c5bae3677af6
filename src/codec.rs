//! The serialized form of a [`SystemTime`]: the whole seconds and the
//! nanoseconds since the epoch, as two fields named `secs_since_epoch` and
//! `nanos_since_epoch`, given in that order or by name.

use vstd::prelude::*;

use crate::duration::{Duration, NANOS_PER_SEC};
use crate::system_time::SystemTime;

verus! {

/// One of the two fields of the serialized form.
#[derive(Clone, Copy, Debug, PartialEq, Eq, Structural)]
pub enum SystemTimeField {
    /// `secs_since_epoch`: whole seconds since the epoch.
    Secs,
    /// `nanos_since_epoch`: nanoseconds past those seconds.
    Nanos,
}

impl SystemTimeField {
    /// The field's name in the serialized form.
    pub fn name(&self) -> (r: &'static str)
        ensures
            r@ == match self {
                SystemTimeField::Secs => "secs_since_epoch"@,
                SystemTimeField::Nanos => "nanos_since_epoch"@,
            },
    {
        match self {
            SystemTimeField::Secs => "secs_since_epoch",
            SystemTimeField::Nanos => "nanos_since_epoch",
        }
    }
}

/// Why a serialized [`SystemTime`] was refused.
#[derive(Clone, Copy, Debug, PartialEq, Eq, Structural)]
pub enum DecodeError {
    /// The sequence form ended after this many fields.
    InvalidLength(usize),
    /// The map form named this field twice.
    DuplicateField(SystemTimeField),
    /// The map form did not name this field.
    MissingField(SystemTimeField),
    /// The seconds, with the whole seconds held in the nanoseconds carried
    /// into them, do not fit in 64 bits.
    Overflow,
}

/// Whether `secs` seconds and `nanos` nanoseconds, the whole seconds of
/// `nanos` carried, fit in a 64-bit count of seconds.
pub open spec fn parts_fit(secs: int, nanos: int) -> bool {
    secs + nanos / (NANOS_PER_SEC as int) <= u64::MAX
}

/// The span, in nanoseconds, that `secs` seconds and `nanos` nanoseconds make.
pub open spec fn parts_nanos(secs: int, nanos: int) -> int {
    secs * NANOS_PER_SEC + nanos
}

/// The two fields that encode a span of `n` nanoseconds.
pub open spec fn epoch_parts(n: int) -> (int, int) {
    (n / (NANOS_PER_SEC as int), n % (NANOS_PER_SEC as int))
}

/// What decoding `secs` and `nanos` gives: the span in nanoseconds, or the
/// error for seconds that overflow.
pub open spec fn decoded_nanos(secs: int, nanos: int) -> Result<int, DecodeError> {
    if parts_fit(secs, nanos) {
        Ok(parts_nanos(secs, nanos))
    } else {
        Err(DecodeError::Overflow)
    }
}

impl SystemTime {
    /// The two fields of the serialized form: whole seconds since the epoch
    /// and the nanoseconds past them.
    pub fn to_epoch_parts(&self) -> (r: (u64, u32))
        ensures
            r.0 == epoch_parts(self@).0,
            r.1 == epoch_parts(self@).1,
    {
        let since = self.since_epoch();
        (since.as_secs(), since.subsec_nanos())
    }

    /// The time that the fields `secs` and `nanos` encode. Nanoseconds of a
    /// second or more are carried into the seconds; where the seconds then
    /// overflow, the error is [`DecodeError::Overflow`].
    pub fn from_epoch_parts(secs: u64, nanos: u32) -> (r: Result<SystemTime, DecodeError>)
        ensures
            match r {
                Ok(t) => decoded_nanos(secs as int, nanos as int) == Ok::<int, DecodeError>(t@),
                Err(e) => decoded_nanos(secs as int, nanos as int) == Err::<int, DecodeError>(e),
            },
    {
        match secs.checked_add((nanos / NANOS_PER_SEC) as u64) {
            None => Err(DecodeError::Overflow),
            Some(_) => {
                let d = Duration::new(secs, nanos);
                Ok(SystemTime::unix_epoch() + d)
            },
        }
    }

    /// Decodes the sequence form: the seconds, then the nanoseconds, each
    /// `None` where the sequence ended before it.
    pub fn from_sequence(secs: Option<u64>, nanos: Option<u32>) -> (r: Result<SystemTime, DecodeError>)
        ensures
            match (secs, nanos) {
                (None, _) => r == Err::<SystemTime, DecodeError>(DecodeError::InvalidLength(0)),
                (Some(_), None) => r == Err::<SystemTime, DecodeError>(DecodeError::InvalidLength(1)),
                (Some(s), Some(n)) => match r {
                    Ok(t) => decoded_nanos(s as int, n as int) == Ok::<int, DecodeError>(t@),
                    Err(e) => decoded_nanos(s as int, n as int) == Err::<int, DecodeError>(e),
                },
            },
    {
        match secs {
            None => Err(DecodeError::InvalidLength(0)),
            Some(s) => match nanos {
                None => Err(DecodeError::InvalidLength(1)),
                Some(n) => SystemTime::from_epoch_parts(s, n),
            },
        }
    }
}

/// The fields of the map form read so far.
pub struct SystemTimeFields {
    /// The `secs_since_epoch` field, once read.
    pub secs_since_epoch: Option<u64>,
    /// The `nanos_since_epoch` field, once read.
    pub nanos_since_epoch: Option<u32>,
}

impl SystemTimeFields {
    /// No field read yet.
    pub fn new() -> (r: SystemTimeFields)
        ensures
            r.secs_since_epoch is None,
            r.nanos_since_epoch is None,
    {
        SystemTimeFields { secs_since_epoch: None, nanos_since_epoch: None }
    }

    /// Whether `field` may be read now: an error when it was read before.
    pub fn check_field(&self, field: SystemTimeField) -> (r: Result<(), DecodeError>)
        ensures
            r == (if (field == SystemTimeField::Secs && self.secs_since_epoch is Some) || (field
                == SystemTimeField::Nanos && self.nanos_since_epoch is Some) {
                Err::<(), DecodeError>(DecodeError::DuplicateField(field))
            } else {
                Ok::<(), DecodeError>(())
            }),
    {
        match field {
            SystemTimeField::Secs => if self.secs_since_epoch.is_some() {
                Err(DecodeError::DuplicateField(field))
            } else {
                Ok(())
            },
            SystemTimeField::Nanos => if self.nanos_since_epoch.is_some() {
                Err(DecodeError::DuplicateField(field))
            } else {
                Ok(())
            },
        }
    }

    /// Decodes the fields read, once the map has ended.
    pub fn finish(&self) -> (r: Result<SystemTime, DecodeError>)
        ensures
            match (self.secs_since_epoch, self.nanos_since_epoch) {
                (None, _) => r == Err::<SystemTime, DecodeError>(
                    DecodeError::MissingField(SystemTimeField::Secs),
                ),
                (Some(_), None) => r == Err::<SystemTime, DecodeError>(
                    DecodeError::MissingField(SystemTimeField::Nanos),
                ),
                (Some(s), Some(n)) => match r {
                    Ok(t) => decoded_nanos(s as int, n as int) == Ok::<int, DecodeError>(t@),
                    Err(e) => decoded_nanos(s as int, n as int) == Err::<int, DecodeError>(e),
                },
            },
    {
        match self.secs_since_epoch {
            None => Err(DecodeError::MissingField(SystemTimeField::Secs)),
            Some(s) => match self.nanos_since_epoch {
                None => Err(DecodeError::MissingField(SystemTimeField::Nanos)),
                Some(n) => SystemTime::from_epoch_parts(s, n),
            },
        }
    }
}

/// Encoding a time and decoding its fields gives back the same time: for
/// every span `n` a [`SystemTime`] can hold, the fields that encode `n`
/// decode to `n`.
pub proof fn lemma_epoch_parts_round_trip(n: int)
    requires
        crate::duration::is_duration_nanos(n),
    ensures
        decoded_nanos(epoch_parts(n).0, epoch_parts(n).1) == Ok::<int, DecodeError>(n),
{
    let d = NANOS_PER_SEC as int;
    vstd::arithmetic::div_mod::lemma_fundamental_div_mod(n, d);
    vstd::arithmetic::div_mod::lemma_mod_bound(n, d);
    assert(n / d <= u64::MAX) by (nonlinear_arith)
        requires
            n == d * (n / d) + n % d,
            0 <= n % d < d,
            d == NANOS_PER_SEC,
            n <= crate::duration::max_duration_nanos(),
    ;
    assert((n % d) / d == 0) by {
        vstd::arithmetic::div_mod::lemma_basic_div(n % d, d);
    }
}

} // verus!

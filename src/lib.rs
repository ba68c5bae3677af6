//! Monotonic and wall-clock time for hosts that hand out timestamps as
//! floating-point milliseconds.
//!
//! The host's reading is taken as the bit pattern of an IEEE-754 double and
//! turned into an exact [`Duration`], rounded to the nearest nanosecond with
//! ties to even. [`Instant`] and [`SystemTime`] are built on that duration.

pub mod codec;
pub mod duration;
pub mod instant;
pub mod system_time;
pub mod time_stamp;

pub use codec::{DecodeError, SystemTimeField, SystemTimeFields};
pub use duration::{Duration, MILLIS_PER_SEC, NANOS_PER_MILLI, NANOS_PER_SEC};
pub use instant::Instant;
pub use system_time::{SystemTime, SystemTimeError};
pub use time_stamp::{time_stamp_in_range, time_stamp_to_duration};

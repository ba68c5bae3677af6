use web_time::{time_stamp_in_range, time_stamp_to_duration, Duration};

/// The conversion of a timestamp in milliseconds.
fn convert(millis: f64) -> Duration {
    let bits = millis.to_bits();
    assert!(time_stamp_in_range(bits));
    time_stamp_to_duration(bits)
}

/// The exact value of `millis` in nanoseconds, rounded half to even,
/// computed straight from the double's fields.
fn exact_nanos(millis: f64) -> u128 {
    let bits = millis.to_bits();
    let exponent = ((bits >> 52) & 0x7ff) as i32;
    let fraction = (bits & ((1u64 << 52) - 1)) as u128;
    let (mantissa, scale) = if exponent == 0 {
        (fraction, -1074)
    } else {
        (fraction | (1u128 << 52), exponent - 1075)
    };
    let numerator = mantissa * 1_000_000;
    if scale >= 0 {
        return numerator << scale;
    }
    let shift = (-scale) as u32;
    if shift >= 100 {
        return 0;
    }
    let quotient = numerator >> shift;
    let rest = numerator - (quotient << shift);
    let half = 1u128 << (shift - 1);
    if rest > half || (rest == half && quotient % 2 == 1) {
        quotient + 1
    } else {
        quotient
    }
}

/// A small deterministic generator for sweeps.
struct XorShift(u64);

impl XorShift {
    fn next(&mut self) -> u64 {
        self.0 ^= self.0 << 13;
        self.0 ^= self.0 >> 7;
        self.0 ^= self.0 << 17;
        self.0
    }
}

#[test]
fn sanity() {
    assert_eq!(convert(0.000_000), Duration::zero());
    assert_eq!(convert(0.000_000_4), Duration::zero());
    // The double nearest 0.0000005 lies just below half a nanosecond.
    assert_eq!(convert(0.000_000_5), Duration::zero());
    assert_eq!(convert(0.000_001), Duration::from_nanos(1));
    assert_eq!(convert(0.000_001_4), Duration::from_nanos(1));
    assert_eq!(convert(0.000_001_5), Duration::from_nanos(2));
    assert_eq!(convert(0.999_999), Duration::from_nanos(999_999));
    assert_eq!(convert(0.999_999_4), Duration::from_nanos(999_999));
    assert_eq!(convert(0.999_999_5), Duration::from_millis(1));
    assert_eq!(convert(1.), Duration::from_millis(1));
    assert_eq!(convert(1.000_000_4), Duration::from_millis(1));
    assert_eq!(convert(1.000_000_5), Duration::from_nanos(1_000_001));
    assert_eq!(convert(1.000_001), Duration::from_nanos(1_000_001));
    assert_eq!(convert(1.000_001_4), Duration::from_nanos(1_000_001));
    // The double nearest 1.0000015 lies just below the half.
    assert_eq!(convert(1.000_001_5), Duration::from_nanos(1_000_001));
    assert_eq!(convert(999.999_999), Duration::from_nanos(999_999_999));
    assert_eq!(convert(999.999_999_4), Duration::from_nanos(999_999_999));
    // The double nearest 999.9999995 lies just below the half.
    assert_eq!(convert(999.999_999_5), Duration::from_nanos(999_999_999));
    assert_eq!(convert(1000.), Duration::from_secs(1));
    assert_eq!(convert(1_000.000_000_4), Duration::from_secs(1));
    assert_eq!(convert(1_000.000_000_5), Duration::from_nanos(1_000_000_001));
    assert_eq!(convert(1_000.000_001), Duration::from_nanos(1_000_000_001));
    assert_eq!(convert(1_000.000_001_4), Duration::from_nanos(1_000_000_001));
    assert_eq!(convert(1_000.000_001_5), Duration::from_nanos(1_000_000_002));
}

#[test]
fn maximum_accurate_integer() {
    let millis: u64 = 1 << 53;
    assert_eq!(convert(millis as f64), Duration::from_millis(millis));
    assert_eq!(convert(millis as f64).as_secs(), millis / 1000);
    assert_eq!(convert(millis as f64).subsec_nanos(), 992_000_000);
}

#[test]
fn maximum_accurate_years() {
    let secs: u64 = 285_616 * 365 * 24 * 60 * 60;
    assert_eq!(convert(secs as f64 * 1_000.), Duration::from_secs(secs));
}

#[test]
fn exact_halves_round_to_even() {
    // 1/128 ms is 7812.5 ns: a tie, rounded to the even 7812.
    assert_eq!(convert(1.0 / 128.0), Duration::from_nanos(7_812));
    // 3/128 ms is 23437.5 ns: a tie, rounded to the even 23438.
    assert_eq!(convert(3.0 / 128.0), Duration::from_nanos(23_438));
    // 1001/128 ms is 7820312.5 ns, past one millisecond.
    assert_eq!(convert(1001.0 / 128.0), Duration::from_nanos(7_820_312));
    // 2^-21 ms is about 0.477 ns: below the half.
    assert_eq!(convert(f64::from_bits(0x3ea0_0000_0000_0000)), Duration::zero());
    // 2^-20 ms is about 0.954 ns.
    assert_eq!(convert(f64::from_bits(0x3eb0_0000_0000_0000)), Duration::from_nanos(1));
}

#[test]
fn large_whole_milliseconds() {
    assert_eq!(convert(2f64.powi(60)), Duration::from_millis(1 << 60));
    assert_eq!(convert(2f64.powi(63)), Duration::from_millis(1 << 63));
    let largest = f64::from_bits(0x43ef_ffff_ffff_ffff);
    assert_eq!(convert(largest).as_nanos(), (largest as u64 as u128) * 1_000_000);
}

#[test]
fn negative_zero() {
    let bits = (-0.0f64).to_bits();
    assert!(time_stamp_in_range(bits));
    assert_eq!(time_stamp_to_duration(bits), Duration::zero());
}

#[test]
fn out_of_range() {
    assert!(!time_stamp_in_range((-1.0f64).to_bits()));
    assert!(!time_stamp_in_range((-f64::MIN_POSITIVE).to_bits()));
    assert!(!time_stamp_in_range(f64::NAN.to_bits()));
    assert!(!time_stamp_in_range(f64::INFINITY.to_bits()));
    assert!(!time_stamp_in_range(2f64.powi(64).to_bits()));
    assert!(time_stamp_in_range(f64::from_bits(0x43ef_ffff_ffff_ffff).to_bits()));
    assert!(time_stamp_in_range(f64::MIN_POSITIVE.to_bits()));
    assert!(time_stamp_in_range((5e-324f64).to_bits()));
}

#[test]
fn subnormal() {
    assert_eq!(convert(5e-324), Duration::zero());
    assert_eq!(convert(f64::MIN_POSITIVE), Duration::zero());
}

#[test]
fn fuzzing() {
    let mut random = XorShift(0x9e37_79b9_7f4a_7c15);
    let limit = ((1u64 << 53) / 1000) as f64;
    for _ in 0..200_000 {
        let unit = (random.next() >> 11) as f64 / (1u64 << 53) as f64;
        let millis = unit * limit;
        assert_eq!(convert(millis).as_nanos(), exact_nanos(millis), "{millis:e}");
    }
}

#[test]
fn fuzzing_all_exponents() {
    let mut random = XorShift(0x2545_f491_4f6c_dd1d);
    for _ in 0..200_000 {
        let exponent = random.next() % 1087;
        let fraction = random.next() & ((1u64 << 52) - 1);
        let millis = f64::from_bits((exponent << 52) | fraction);
        assert_eq!(convert(millis).as_nanos(), exact_nanos(millis), "{millis:e}");
    }
}

#[test]
fn monotonic_conversion() {
    let mut random = XorShift(0x1234_5678_9abc_def1);
    let mut readings: Vec<f64> = (0..20_000)
        .map(|_| f64::from_bits(random.next() % (1087u64 << 52)))
        .collect();
    readings.sort_by(|a, b| a.partial_cmp(b).unwrap());
    let durations: Vec<Duration> = readings.iter().map(|&millis| convert(millis)).collect();
    for pair in durations.windows(2) {
        assert!(pair[0] <= pair[1]);
    }
}

use web_time::{Duration, Instant};

/// The instant of a timer reading of `millis` milliseconds.
fn instant(millis: f64) -> Instant {
    Instant::from_time_stamp(millis.to_bits())
}

#[test]
fn from_time_stamp_rounds() {
    let origin = instant(0.0);
    assert_eq!(instant(1.000_000_5).duration_since(origin), Duration::from_nanos(1_000_001));
    assert_eq!(instant(1_000.0).duration_since(origin), Duration::from_secs(1));
}

#[test]
fn duration_success() {
    let earlier = instant(1_000.0);
    let later = instant(1_250.5);
    assert_eq!(later.duration_since(earlier), Duration::from_nanos(250_500_000));
    assert_eq!(later - earlier, Duration::from_nanos(250_500_000));
}

#[test]
fn duration_failure() {
    let earlier = instant(1_000.0);
    let later = instant(1_250.5);
    assert_eq!(earlier.duration_since(later), Duration::zero());
    assert_eq!(earlier - later, Duration::zero());
}

#[test]
fn checked_duration_success() {
    let earlier = instant(10.0);
    let later = instant(20.0);
    assert_eq!(later.checked_duration_since(earlier), Some(Duration::from_millis(10)));
    assert_eq!(later.checked_duration_since(later), Some(Duration::zero()));
}

#[test]
fn checked_duration_failure() {
    assert_eq!(instant(10.0).checked_duration_since(instant(20.0)), None);
}

#[test]
fn saturating_duration_success() {
    assert_eq!(instant(20.0).saturating_duration_since(instant(10.0)), Duration::from_millis(10));
}

#[test]
fn saturating_duration_failure() {
    assert_eq!(instant(10.0).saturating_duration_since(instant(20.0)), Duration::zero());
}

#[test]
fn checked_add_success() {
    let start = instant(10.0);
    let moved = start.checked_add(Duration::from_millis(5)).unwrap();
    assert_eq!(moved, instant(15.0));
    assert_eq!(moved.duration_since(start), Duration::from_millis(5));
}

#[test]
fn checked_add_failure() {
    assert_eq!(instant(10.0).checked_add(Duration::maximum()), None);
    assert_eq!(instant(0.0).checked_add(Duration::maximum()).unwrap().duration_since(instant(0.0)), Duration::maximum());
}

#[test]
fn checked_sub_success() {
    assert_eq!(instant(15.0).checked_sub(Duration::from_millis(5)), Some(instant(10.0)));
    assert_eq!(instant(15.0).checked_sub(Duration::from_millis(15)), Some(instant(0.0)));
}

#[test]
fn checked_sub_failure() {
    assert_eq!(instant(10.0).checked_sub(Duration::maximum()), None);
    assert_eq!(instant(10.0).checked_sub(Duration::from_nanos(10_000_001)), None);
}

#[test]
fn add_success() {
    assert_eq!(instant(10.0) + Duration::from_millis(5), instant(15.0));
}

#[test]
fn sub_success() {
    assert_eq!(instant(15.0) - Duration::from_millis(5), instant(10.0));
}

#[test]
fn comparison() {
    let earlier = instant(1.0);
    let later = instant(1.000_001);
    assert!(earlier < later);
    assert!(earlier <= earlier);
    assert!(later > earlier);
    assert_eq!(earlier.cmp(&later), std::cmp::Ordering::Less);
}

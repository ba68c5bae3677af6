use web_time::{Duration, SystemTime};

#[test]
fn unix_epoch() {
    assert_eq!(SystemTime::unix_epoch().since_epoch(), Duration::zero());
    assert_eq!(SystemTime::from_unix_millis(0), SystemTime::unix_epoch());
}

#[test]
fn from_unix_millis() {
    let time = SystemTime::from_unix_millis(1_700_000_000_123);
    assert_eq!(time.since_epoch(), Duration::new(1_700_000_000, 123_000_000));
}

#[test]
fn duration_since_success() {
    let earlier = SystemTime::from_unix_millis(1_000);
    let later = SystemTime::from_unix_millis(3_500);
    assert_eq!(later.duration_since(earlier).unwrap(), Duration::from_millis(2_500));
    assert_eq!(later.duration_since(later).unwrap(), Duration::zero());
}

#[test]
fn duration_since_failure() {
    let earlier = SystemTime::from_unix_millis(1_000);
    let later = SystemTime::from_unix_millis(3_500);
    let error = earlier.duration_since(later).unwrap_err();
    assert_eq!(error.duration(), Duration::from_millis(2_500));
    assert_eq!(error.message(), "second time provided was later than self");
}

#[test]
fn system_time_checked_add() {
    let time = SystemTime::from_unix_millis(1_000);
    assert_eq!(time.checked_add(Duration::from_millis(1)), Some(SystemTime::from_unix_millis(1_001)));
    assert_eq!(time.checked_add(Duration::maximum()), None);
    assert_eq!(
        SystemTime::unix_epoch().checked_add(Duration::maximum()).unwrap().since_epoch(),
        Duration::maximum()
    );
}

#[test]
fn system_time_checked_sub() {
    let time = SystemTime::from_unix_millis(1_000);
    assert_eq!(time.checked_sub(Duration::from_millis(1)), Some(SystemTime::from_unix_millis(999)));
    assert_eq!(time.checked_sub(Duration::from_millis(1_000)), Some(SystemTime::unix_epoch()));
    assert_eq!(time.checked_sub(Duration::maximum()), None);
}

#[test]
fn system_time_operators() {
    let time = SystemTime::from_unix_millis(1_000);
    assert_eq!(time + Duration::from_millis(500), SystemTime::from_unix_millis(1_500));
    assert_eq!(time - Duration::from_millis(500), SystemTime::from_unix_millis(500));
}

#[test]
fn system_time_comparison() {
    assert!(SystemTime::from_unix_millis(1) > SystemTime::unix_epoch());
    assert!(SystemTime::from_unix_millis(1) <= SystemTime::from_unix_millis(1));
}

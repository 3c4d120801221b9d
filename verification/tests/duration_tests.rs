use ptimer::duration::HmsTime;

#[test]
fn from_seconds_round_trip() {
    for s in [0u64, 1, 59, 60, 61, 3599, 3600, 3661, 86400, 360000, 18446744073709551615] {
        let t = HmsTime::from_seconds(s);
        assert_eq!(t.total_seconds(), s);
        assert!(t.m < 60 && t.s < 60);
    }
}

#[test]
fn from_seconds_splits_components() {
    let t = HmsTime::from_seconds(3661);
    assert_eq!(t, HmsTime { h: 1, m: 1, s: 1 });
    let z = HmsTime::from_seconds(0);
    assert_eq!(z, HmsTime { h: 0, m: 0, s: 0 });
}

#[test]
fn rebalanced_ninety_minutes() {
    let raw = HmsTime { h: 0, m: 90, s: 0 };
    assert_eq!(raw.rebalanced(), HmsTime { h: 1, m: 30, s: 0 });
}

#[test]
fn rebalanced_preserves_total() {
    let raw = HmsTime { h: 2, m: 150, s: 75 };
    let balanced = raw.rebalanced();
    assert_eq!(balanced.total_seconds(), 2 * 3600 + 150 * 60 + 75);
    assert!(balanced.m < 60 && balanced.s < 60);
}

#[test]
fn rebalanced_idempotent() {
    let raw = HmsTime { h: 0, m: 90, s: 3725 };
    let once = raw.rebalanced();
    let twice = once.rebalanced();
    assert_eq!(once, twice);
}

#[test]
fn checked_total_seconds_overflow() {
    let big = HmsTime { h: 18446744073709551615, m: 0, s: 0 };
    assert_eq!(big.checked_total_seconds(), None);
    let small = HmsTime { h: 1, m: 30, s: 0 };
    assert_eq!(small.checked_total_seconds(), Some(5400));
}

use ptimer::duration::HmsTime;

#[test]
fn render_pads_to_two_digits() {
    assert_eq!(HmsTime::from_seconds(5).fmt(), "00:00:05");
    assert_eq!(HmsTime::from_seconds(3661).fmt(), "01:01:01");
}

#[test]
fn render_hours_unbounded() {
    assert_eq!(HmsTime::from_seconds(360000).fmt(), "100:00:00");
    assert_eq!(HmsTime::from_seconds(36000000).fmt(), "10000:00:00");
}

#[test]
fn render_zero() {
    assert_eq!(HmsTime::from_seconds(0).fmt(), "00:00:00");
}

#[test]
fn render_shows_raw_components() {
    let raw = HmsTime { h: 0, m: 90, s: 7 };
    assert_eq!(raw.fmt(), "00:90:07");
}

use ptimer::args::process_args;
use ptimer::args::parse_u64;
use ptimer::args::ArgError;
use ptimer::duration::HmsTime;

fn tokens(words: &[&str]) -> Vec<String> {
    words.iter().map(|w| w.to_string()).collect()
}

#[test]
fn hours_and_minutes() {
    let r = process_args(tokens(&["prog", "-h", "1", "-m", "30"])).unwrap();
    assert_eq!(r.time.total_seconds(), 5400);
    assert_eq!(r.time, HmsTime { h: 1, m: 30, s: 0 });
    assert!(r.play_sound);
    assert!(r.stopped_timer);
}

#[test]
fn lone_flag_is_missing_value() {
    assert_eq!(process_args(tokens(&["prog", "-h"])), Err(ArgError::MissingValue));
    assert_eq!(process_args(tokens(&["prog", "-s", "5", "-m"])), Err(ArgError::MissingValue));
}

#[test]
fn no_arguments_rejected() {
    assert_eq!(process_args(tokens(&["prog"])), Err(ArgError::NoArgs));
    assert_eq!(process_args(Vec::new()), Err(ArgError::NoArgs));
}

#[test]
fn non_numeric_rejected() {
    assert_eq!(process_args(tokens(&["prog", "abc"])), Err(ArgError::BadNumber));
    assert_eq!(process_args(tokens(&["prog", "-h", "x"])), Err(ArgError::BadNumber));
    assert_eq!(process_args(tokens(&["prog", "-5"])), Err(ArgError::BadNumber));
}

#[test]
fn bare_integers_count_as_seconds() {
    let r = process_args(tokens(&["prog", "90"])).unwrap();
    assert_eq!(r.time, HmsTime { h: 0, m: 1, s: 30 });
    let r = process_args(tokens(&["prog", "-s", "10", "-s", "20", "5"])).unwrap();
    assert_eq!(r.time, HmsTime { h: 0, m: 0, s: 35 });
}

#[test]
fn behaviour_flags() {
    let r = process_args(tokens(&["prog", "--silent", "10"])).unwrap();
    assert!(!r.play_sound);
    assert!(r.stopped_timer);
    let r = process_args(tokens(&["prog", "--exit-on-stop", "-s", "5"])).unwrap();
    assert!(r.play_sound);
    assert!(!r.stopped_timer);
}

#[test]
fn overflowing_total_rejected() {
    let r = process_args(tokens(&["prog", "-h", "18446744073709551615", "-m", "1"]));
    assert_eq!(r, Err(ArgError::Overflow));
}

#[test]
fn numeral_too_large_for_u64_rejected() {
    let r = process_args(tokens(&["prog", "18446744073709551616"]));
    assert_eq!(r, Err(ArgError::BadNumber));
}

#[test]
fn parse_u64_grammar() {
    assert_eq!(parse_u64("0"), Some(0));
    assert_eq!(parse_u64("007"), Some(7));
    assert_eq!(parse_u64("18446744073709551615"), Some(18446744073709551615));
    assert_eq!(parse_u64("18446744073709551616"), None);
    assert_eq!(parse_u64(""), None);
    assert_eq!(parse_u64("+5"), None);
    assert_eq!(parse_u64("1 2"), None);
}

#[test]
fn error_messages() {
    assert_eq!(ArgError::NoArgs.message(), "Must provide at least one argument");
    assert_eq!(
        ArgError::MissingValue.message(),
        "-h, -m and -s must be followed by another argument"
    );
    assert_eq!(ArgError::BadNumber.message(), "Lone argument must be integer or flag");
    assert_eq!(ArgError::Overflow.message(), "Requested time is too large");
}

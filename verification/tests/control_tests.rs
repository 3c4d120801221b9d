use ptimer::control::countdown_step;
use ptimer::control::countup_step;
use ptimer::control::is_quit_line;
use ptimer::control::CountUpStep;
use ptimer::control::CountdownStep;
use ptimer::duration::HmsTime;

#[test]
fn zero_countdown_ends_without_render() {
    assert_eq!(countdown_step(0, 0), CountdownStep::Done);
    assert_eq!(countdown_step(0, 100), CountdownStep::Done);
}

#[test]
fn countdown_renders_remaining() {
    assert_eq!(countdown_step(10, 3), CountdownStep::Tick(HmsTime { h: 0, m: 0, s: 7 }));
    assert_eq!(countdown_step(3661, 0), CountdownStep::Tick(HmsTime { h: 1, m: 1, s: 1 }));
    assert_eq!(countdown_step(10, 10), CountdownStep::Done);
    assert_eq!(countdown_step(10, 11), CountdownStep::Done);
}

#[test]
fn countup_stops_on_signal_without_render() {
    assert_eq!(countup_step(true, 5), CountUpStep::Stop);
    assert_eq!(countup_step(true, 0), CountUpStep::Stop);
}

#[test]
fn countup_renders_elapsed_until_signal() {
    assert_eq!(countup_step(false, 65), CountUpStep::Tick(HmsTime { h: 0, m: 1, s: 5 }));
    // the loop acts on each poll in turn: ticks until the first signal, then stops
    let polls = [false, false, true];
    let mut steps = Vec::new();
    for (i, cancelled) in polls.iter().enumerate() {
        let step = countup_step(*cancelled, i as u64);
        let stop = step == CountUpStep::Stop;
        steps.push(step);
        if stop {
            break;
        }
    }
    assert_eq!(
        steps,
        vec![
            CountUpStep::Tick(HmsTime { h: 0, m: 0, s: 0 }),
            CountUpStep::Tick(HmsTime { h: 0, m: 0, s: 1 }),
            CountUpStep::Stop,
        ]
    );
}

#[test]
fn quit_tokens_accepted() {
    assert!(is_quit_line("q"));
    assert!(is_quit_line(""));
    assert!(is_quit_line("q\n"));
    assert!(is_quit_line("\n"));
    assert!(is_quit_line(" "));
    assert!(is_quit_line(" q "));
    assert!(is_quit_line("\t\r\n"));
}

#[test]
fn other_lines_ignored() {
    assert!(!is_quit_line("quit"));
    assert!(!is_quit_line("Q"));
    assert!(!is_quit_line("qq"));
    assert!(!is_quit_line("x"));
    assert!(!is_quit_line(" stop "));
}

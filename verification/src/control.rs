//! The decisions of the two display loops and of the input listener.
//!
//! The loops themselves sleep, read clocks and write to the terminal, so they
//! run outside the library; each tick they hand their clock reading (and, for
//! the count-up loop, whether the cancellation signal has been observed) to a
//! step function here, which decides whether to render and what, or to stop.

use vstd::prelude::*;
use vstd::string::StrSliceExecFns;
use crate::duration::HmsTime;

verus! {

/// What the countdown loop does for one clock reading: render the remaining
/// time, or finish.
#[derive(Clone, Copy, Debug, PartialEq, Eq, Structural)]
pub enum CountdownStep {
    Tick(HmsTime),
    Done,
}

/// What `countdown_step` decides: while the elapsed time is short of the
/// target, render the normalized remainder; from the target on, finish.
pub open spec fn spec_countdown_step(total: u64, elapsed: u64) -> CountdownStep {
    if elapsed < total {
        CountdownStep::Tick(HmsTime::spec_from_seconds((total - elapsed) as u64))
    } else {
        CountdownStep::Done
    }
}

/// One tick of the countdown towards a target of `total` seconds, given the
/// whole seconds elapsed since its start.
pub fn countdown_step(total: u64, elapsed: u64) -> (r: CountdownStep)
    ensures
        r == spec_countdown_step(total, elapsed),
{
    if elapsed < total {
        CountdownStep::Tick(HmsTime::from_seconds(total - elapsed))
    } else {
        CountdownStep::Done
    }
}

/// A countdown towards zero seconds never renders: every clock reading ends
/// it at once, whatever the clock says.
pub proof fn lemma_zero_countdown_never_ticks(elapsed: u64)
    ensures
        spec_countdown_step(0, elapsed) == CountdownStep::Done,
{
}

/// What the count-up loop does for one poll: render the elapsed time, or, on
/// an observed cancellation signal, stop without rendering.
#[derive(Clone, Copy, Debug, PartialEq, Eq, Structural)]
pub enum CountUpStep {
    Tick(HmsTime),
    Stop,
}

/// What `countup_step` decides: stop the moment the signal is seen, and
/// render the normalized elapsed time otherwise.
pub open spec fn spec_countup_step(cancelled: bool, elapsed: u64) -> CountUpStep {
    if cancelled {
        CountUpStep::Stop
    } else {
        CountUpStep::Tick(HmsTime::spec_from_seconds(elapsed))
    }
}

/// One tick of the count-up display, given whether this poll observed the
/// cancellation signal and the whole seconds elapsed since the loop started.
pub fn countup_step(cancelled: bool, elapsed: u64) -> (r: CountUpStep)
    ensures
        r == spec_countup_step(cancelled, elapsed),
{
    if cancelled {
        CountUpStep::Stop
    } else {
        CountUpStep::Tick(HmsTime::from_seconds(elapsed))
    }
}

/// The whole count-up phase: poll `i` observes `signals[i]` and reads
/// `elapsed[i]`; the loop acts on each poll in turn and exits at the first
/// observed signal.
pub open spec fn countup_run(signals: Seq<bool>, elapsed: Seq<u64>) -> Seq<CountUpStep>
    decreases signals.len(),
{
    if signals.len() == 0 {
        Seq::empty()
    } else if signals[0] {
        seq![CountUpStep::Stop]
    } else {
        seq![spec_countup_step(false, elapsed[0])] + countup_run(
            signals.skip(1),
            elapsed.skip(1),
        )
    }
}

/// One-shot cancellation: when the signal first becomes observable at poll
/// `k`, the loop renders exactly once per earlier poll, stops at poll `k`,
/// and never renders afterwards.
pub proof fn lemma_one_shot_cancellation(signals: Seq<bool>, elapsed: Seq<u64>, k: int)
    requires
        elapsed.len() == signals.len(),
        0 <= k < signals.len(),
        signals[k],
        forall|i: int| 0 <= i < k ==> !signals[i],
    ensures
        countup_run(signals, elapsed).len() == k + 1,
        countup_run(signals, elapsed)[k] == CountUpStep::Stop,
        forall|i: int| 0 <= i < k ==> countup_run(signals, elapsed)[i] == spec_countup_step(
            false,
            elapsed[i],
        ),
    decreases k,
{
    if k > 0 {
        lemma_one_shot_cancellation(signals.skip(1), elapsed.skip(1), k - 1);
        let rest = countup_run(signals.skip(1), elapsed.skip(1));
        let whole = countup_run(signals, elapsed);
        assert(whole == seq![spec_countup_step(false, elapsed[0])] + rest);
        assert forall|i: int| 0 <= i < k implies whole[i] == spec_countup_step(
            false,
            elapsed[i],
        ) by {
            if i > 0 {
                assert(rest[i - 1] == spec_countup_step(false, elapsed.skip(1)[i - 1]));
                assert(elapsed.skip(1)[i - 1] == elapsed[i]);
            }
        }
    }
}

/// `c` counts as surrounding whitespace for the quit test.
pub open spec fn is_ws_char(c: char) -> bool {
    c == ' ' || c == '\t' || c == '\n' || c == '\r'
}

/// The first position in `s` at or after `i` that does not hold whitespace.
pub open spec fn trim_start_idx(s: Seq<char>, i: int) -> int
    decreases s.len() - i,
{
    if 0 <= i < s.len() && is_ws_char(s[i]) {
        trim_start_idx(s, i + 1)
    } else {
        i
    }
}

/// The position after the last non-whitespace character of `s` before `j`.
pub open spec fn trim_end_idx(s: Seq<char>, j: int) -> int
    decreases j,
{
    if 0 < j <= s.len() && is_ws_char(s[j - 1]) {
        trim_end_idx(s, j - 1)
    } else {
        j
    }
}

/// `s` with surrounding whitespace removed.
pub open spec fn spec_trimmed(s: Seq<char>) -> Seq<char> {
    let a = trim_start_idx(s, 0);
    let b = trim_end_idx(s, s.len() as int);
    if a <= b {
        s.subrange(a, b)
    } else {
        Seq::empty()
    }
}

/// The line, once trimmed, is exactly the quit token "q" or empty.
pub open spec fn spec_is_quit(s: Seq<char>) -> bool {
    spec_trimmed(s) == seq!['q'] || spec_trimmed(s).len() == 0
}

/// `c` counts as surrounding whitespace for the quit test.
fn is_ws(c: char) -> (r: bool)
    ensures
        r == is_ws_char(c),
{
    c == ' ' || c == '\t' || c == '\n' || c == '\r'
}

/// Decide whether an input line asks to quit: trim surrounding whitespace,
/// then accept exactly the quit token "q" or an empty remainder.
pub fn is_quit_line(line: &str) -> (r: bool)
    ensures
        r == spec_is_quit(line@),
{
    let n = line.unicode_len();
    let mut a: usize = 0;
    while a < n && is_ws(line.get_char(a))
        invariant
            a <= n,
            n == line@.len(),
            trim_start_idx(line@, 0) == trim_start_idx(line@, a as int),
        decreases n - a,
    {
        a = a + 1;
    }
    let mut b: usize = n;
    while b > 0 && is_ws(line.get_char(b - 1))
        invariant
            b <= n,
            n == line@.len(),
            trim_end_idx(line@, n as int) == trim_end_idx(line@, b as int),
        decreases b,
    {
        b = b - 1;
    }
    proof {
        assert(trim_start_idx(line@, a as int) == a);
        assert(trim_end_idx(line@, b as int) == b);
    }
    if a >= b {
        true
    } else if b - a == 1 {
        let c = line.get_char(a);
        proof {
            assert(spec_trimmed(line@) =~= seq![line@[a as int]]);
        }
        if c == 'q' {
            proof {
                assert(spec_trimmed(line@) =~= seq!['q']);
            }
            true
        } else {
            proof {
                assert(spec_trimmed(line@)[0] == line@[a as int]);
                assert(seq!['q'][0] == 'q');
            }
            false
        }
    } else {
        proof {
            assert(spec_trimmed(line@).len() == b - a);
            assert(spec_trimmed(line@) != seq!['q']);
        }
        false
    }
}

} // verus!

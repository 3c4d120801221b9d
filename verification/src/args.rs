//! Command-line argument parsing: flag and numeric tokens into a duration
//! plus the two behaviour flags.

use vstd::prelude::*;
use vstd::arithmetic::overflow::CheckedU64;
use vstd::string::StrSliceExecFns;
use vstd::string::StringExecFns;
use crate::duration::HmsTime;

verus! {

/// The settings read from the command line: a normalized duration and the
/// two behaviour flags.
#[derive(Clone, Copy, Debug, PartialEq, Eq, Structural)]
pub struct ProcessedArgs {
    pub time: HmsTime,
    pub stopped_timer: bool,
    pub play_sound: bool,
}

/// Why a command line was rejected.
#[derive(Clone, Copy, Debug, PartialEq, Eq, Structural)]
pub enum ArgError {
    /// Nothing besides the program name.
    NoArgs,
    /// `-h`, `-m` or `-s` stood last, with no value after it.
    MissingValue,
    /// A token that had to be a non-negative integer was not one.
    BadNumber,
    /// The requested duration does not fit in 64-bit seconds.
    Overflow,
}

impl ArgError {
    /// A human-readable description of the error.
    pub fn message(&self) -> (r: &'static str)
        ensures
            self is NoArgs ==> r@ == "Must provide at least one argument"@,
            self is MissingValue ==> r@ == "-h, -m and -s must be followed by another argument"@,
            self is BadNumber ==> r@ == "Lone argument must be integer or flag"@,
            self is Overflow ==> r@ == "Requested time is too large"@,
    {
        match self {
            ArgError::NoArgs => "Must provide at least one argument",
            ArgError::MissingValue => "-h, -m and -s must be followed by another argument",
            ArgError::BadNumber => "Lone argument must be integer or flag",
            ArgError::Overflow => "Requested time is too large",
        }
    }
}

/// `c` is a decimal digit.
pub open spec fn is_digit(c: char) -> bool {
    '0' <= c && c <= '9'
}

/// The value of a decimal digit character.
pub open spec fn digit_val(c: char) -> int {
    c as int - '0' as int
}

/// Every character of `s` is a decimal digit.
pub open spec fn all_digits(s: Seq<char>) -> bool {
    forall|i: int| 0 <= i < s.len() ==> is_digit(#[trigger] s[i])
}

/// The number the digit string `s` denotes, read most significant first.
pub open spec fn dec_val(s: Seq<char>) -> int
    decreases s.len(),
{
    if s.len() == 0 {
        0
    } else {
        dec_val(s.drop_last()) * 10 + digit_val(s.last())
    }
}

/// `s` is a decimal numeral that fits in a `u64`.
pub open spec fn is_dec_u64(s: Seq<char>) -> bool {
    s.len() > 0 && all_digits(s) && dec_val(s) <= u64::MAX
}

/// A digit string denotes a non-negative number.
pub proof fn lemma_dec_val_nonneg(s: Seq<char>)
    requires
        all_digits(s),
    ensures
        dec_val(s) >= 0,
    decreases s.len(),
{
    if s.len() > 0 {
        assert forall|i: int| 0 <= i < s.drop_last().len() implies is_digit(
            #[trigger] s.drop_last()[i],
        ) by {
            assert(s.drop_last()[i] == s[i]);
        }
        lemma_dec_val_nonneg(s.drop_last());
    }
}

/// Extending a digit string to the right never shrinks its value.
pub proof fn lemma_dec_val_extend(s: Seq<char>, j: int)
    requires
        all_digits(s),
        0 <= j <= s.len(),
    ensures
        dec_val(s.take(j)) <= dec_val(s),
    decreases s.len() - j,
{
    assert forall|i: int| 0 <= i < s.take(j).len() implies is_digit(#[trigger] s.take(j)[i]) by {
        assert(s.take(j)[i] == s[i]);
    }
    if j == s.len() {
        assert(s.take(j) =~= s);
    } else {
        lemma_dec_val_extend(s, j + 1);
        assert(s.take(j + 1).drop_last() =~= s.take(j));
        lemma_dec_val_nonneg(s.take(j));
        assert(dec_val(s.take(j + 1)) == dec_val(s.take(j)) * 10 + digit_val(s[j]));
    }
}

/// Parse a decimal numeral as a `u64`; `None` where the token is empty, holds
/// a non-digit, or denotes a value above `u64::MAX`.
pub fn parse_u64(s: &str) -> (r: Option<u64>)
    ensures
        match r {
            Some(v) => is_dec_u64(s@) && v == dec_val(s@),
            None => !is_dec_u64(s@),
        },
{
    let n = s.unicode_len();
    if n == 0 {
        return None;
    }
    let mut acc: u64 = 0;
    let mut i: usize = 0;
    while i < n
        invariant
            0 <= i <= n,
            n == s@.len(),
            forall|j: int| 0 <= j < i ==> is_digit(#[trigger] s@[j]),
            acc == dec_val(s@.take(i as int)),
        decreases n - i,
    {
        let c = s.get_char(i);
        let cv = c as u32;
        if cv < 48 || cv > 57 {
            assert(!is_digit(s@[i as int]));
            return None;
        }
        let d = (cv - 48) as u64;
        proof {
            assert(is_digit(s@[i as int]) && digit_val(s@[i as int]) == d);
            assert(s@.take(i + 1).drop_last() =~= s@.take(i as int));
        }
        let next = match acc.checked_mul(10) {
            Some(x) => x.checked_add(d),
            None => None,
        };
        match next {
            Some(v) => {
                acc = v;
            },
            None => {
                proof {
                    if all_digits(s@) {
                        lemma_dec_val_extend(s@, i + 1);
                    }
                }
                return None;
            },
        }
        i = i + 1;
    }
    proof {
        assert(s@.take(n as int) =~= s@);
    }
    Some(acc)
}

/// The raw component sums and flags that a command line denotes, before
/// normalization, as unbounded integers.
pub struct RawTotals {
    pub h: int,
    pub m: int,
    pub s: int,
    pub play_sound: bool,
    pub show_stopped_timer: bool,
}

/// The outcome of reading a token sequence.
pub enum SpecParse {
    Parsed(RawTotals),
    MissingValue,
    BadNumber,
}

/// The character sequences of a token list.
pub open spec fn token_views(args: Seq<String>) -> Seq<Seq<char>> {
    args.map(|i: int, s: String| s@)
}

/// Read the tokens from position `i` on, accumulating into `acc`. `-h`, `-m`
/// and `-s` each consume the following numeric token; `--silent` and
/// `--exit-on-stop` clear their flag; any other token must be a numeral and
/// counts as seconds.
pub open spec fn parse_from(toks: Seq<Seq<char>>, i: int, acc: RawTotals) -> SpecParse
    decreases toks.len() - i,
{
    if i >= toks.len() {
        SpecParse::Parsed(acc)
    } else {
        let tok = toks[i];
        if tok == "-h"@ {
            if i + 1 >= toks.len() {
                SpecParse::MissingValue
            } else if !is_dec_u64(toks[i + 1]) {
                SpecParse::BadNumber
            } else {
                parse_from(
                    toks,
                    i + 2,
                    RawTotals { h: acc.h + dec_val(toks[i + 1]), ..acc },
                )
            }
        } else if tok == "-m"@ {
            if i + 1 >= toks.len() {
                SpecParse::MissingValue
            } else if !is_dec_u64(toks[i + 1]) {
                SpecParse::BadNumber
            } else {
                parse_from(
                    toks,
                    i + 2,
                    RawTotals { m: acc.m + dec_val(toks[i + 1]), ..acc },
                )
            }
        } else if tok == "-s"@ {
            if i + 1 >= toks.len() {
                SpecParse::MissingValue
            } else if !is_dec_u64(toks[i + 1]) {
                SpecParse::BadNumber
            } else {
                parse_from(
                    toks,
                    i + 2,
                    RawTotals { s: acc.s + dec_val(toks[i + 1]), ..acc },
                )
            }
        } else if tok == "--silent"@ {
            parse_from(toks, i + 1, RawTotals { play_sound: false, ..acc })
        } else if tok == "--exit-on-stop"@ {
            parse_from(toks, i + 1, RawTotals { show_stopped_timer: false, ..acc })
        } else if is_dec_u64(tok) {
            parse_from(toks, i + 1, RawTotals { s: acc.s + dec_val(tok), ..acc })
        } else {
            SpecParse::BadNumber
        }
    }
}

/// Nothing accumulated yet; both flags at their defaults.
pub open spec fn initial_raw() -> RawTotals {
    RawTotals { h: 0, m: 0, s: 0, play_sound: true, show_stopped_timer: true }
}

/// The outcome of reading a whole command line (the token at position 0 is
/// the program name and is skipped).
pub open spec fn spec_parse(toks: Seq<Seq<char>>) -> SpecParse {
    parse_from(toks, 1, initial_raw())
}

/// The duration the raw components denote, in seconds.
pub open spec fn raw_total(t: RawTotals) -> int {
    t.s + 60 * (t.m + 60 * t.h)
}

/// The full statement of what `process_args` returns for a given command
/// line: every error named with the exact inputs that cause it, and the
/// success value pinned to the normalized form of the parsed totals.
pub open spec fn parse_result_matches(
    args: Seq<String>,
    r: Result<ProcessedArgs, ArgError>,
) -> bool {
    if args.len() < 2 {
        r == Result::<ProcessedArgs, ArgError>::Err(ArgError::NoArgs)
    } else {
        match spec_parse(token_views(args)) {
            SpecParse::MissingValue => r == Result::<ProcessedArgs, ArgError>::Err(
                ArgError::MissingValue,
            ),
            SpecParse::BadNumber => r == Result::<ProcessedArgs, ArgError>::Err(
                ArgError::BadNumber,
            ),
            SpecParse::Parsed(t) => if raw_total(t) <= u64::MAX {
                r == Result::<ProcessedArgs, ArgError>::Ok(
                    ProcessedArgs {
                        time: HmsTime::spec_from_total(raw_total(t)),
                        stopped_timer: t.show_stopped_timer,
                        play_sound: t.play_sound,
                    },
                )
            } else {
                r == Result::<ProcessedArgs, ArgError>::Err(ArgError::Overflow)
            },
        }
    }
}

/// Turn the command-line tokens (program name first) into a normalized
/// duration and the two behaviour flags.
pub fn process_args(args: Vec<String>) -> (r: Result<ProcessedArgs, ArgError>)
    ensures
        parse_result_matches(args@, r),
{
    if args.len() < 2 {
        return Err(ArgError::NoArgs);
    }
    let flag_hours = String::from_str("-h");
    let flag_minutes = String::from_str("-m");
    let flag_seconds = String::from_str("-s");
    let flag_silent = String::from_str("--silent");
    let flag_exit_on_stop = String::from_str("--exit-on-stop");

    let mut hours = CheckedU64::new(0);
    let mut minutes = CheckedU64::new(0);
    let mut seconds = CheckedU64::new(0);
    let mut play_sound = true;
    let mut stopped_timer = true;

    let ghost toks = token_views(args@);

    let mut i: usize = 1;
    while i < args.len()
        invariant
            1 <= i <= args@.len(),
            2 <= args@.len(),
            toks == token_views(args@),
            toks.len() == args@.len(),
            flag_hours@ == "-h"@,
            flag_minutes@ == "-m"@,
            flag_seconds@ == "-s"@,
            flag_silent@ == "--silent"@,
            flag_exit_on_stop@ == "--exit-on-stop"@,
            spec_parse(toks) == parse_from(
                toks,
                i as int,
                (RawTotals {
                    h: hours@ as int,
                    m: minutes@ as int,
                    s: seconds@ as int,
                    play_sound,
                    show_stopped_timer: stopped_timer,
                }),
            ),
        decreases args@.len() - i,
    {
        let tok = &args[i];
        proof {
            assert(toks[i as int] == args@[i as int]@);
        }
        if tok.eq(&flag_hours) {
            if i + 1 >= args.len() {
                return Err(ArgError::MissingValue);
            }
            proof {
                assert(toks[i + 1] == args@[i + 1]@);
            }
            match parse_u64(args[i + 1].as_str()) {
                None => {
                    return Err(ArgError::BadNumber);
                },
                Some(v) => {
                    hours = hours.add_value(v);
                    i = i + 2;
                },
            }
        } else if tok.eq(&flag_minutes) {
            if i + 1 >= args.len() {
                return Err(ArgError::MissingValue);
            }
            proof {
                assert(toks[i + 1] == args@[i + 1]@);
            }
            match parse_u64(args[i + 1].as_str()) {
                None => {
                    return Err(ArgError::BadNumber);
                },
                Some(v) => {
                    minutes = minutes.add_value(v);
                    i = i + 2;
                },
            }
        } else if tok.eq(&flag_seconds) {
            if i + 1 >= args.len() {
                return Err(ArgError::MissingValue);
            }
            proof {
                assert(toks[i + 1] == args@[i + 1]@);
            }
            match parse_u64(args[i + 1].as_str()) {
                None => {
                    return Err(ArgError::BadNumber);
                },
                Some(v) => {
                    seconds = seconds.add_value(v);
                    i = i + 2;
                },
            }
        } else if tok.eq(&flag_silent) {
            play_sound = false;
            i = i + 1;
        } else if tok.eq(&flag_exit_on_stop) {
            stopped_timer = false;
            i = i + 1;
        } else {
            match parse_u64(tok.as_str()) {
                None => {
                    return Err(ArgError::BadNumber);
                },
                Some(v) => {
                    seconds = seconds.add_value(v);
                    i = i + 1;
                },
            }
        }
    }
    let total = hours.mul_value(60).add_checked(&minutes).mul_value(60).add_checked(&seconds);
    proof {
        assert(total@ == seconds@ + 60 * (minutes@ + 60 * hours@));
    }
    match total.to_option() {
        None => Err(ArgError::Overflow),
        Some(tot) => {
            let time = HmsTime::from_seconds(tot);
            Ok(ProcessedArgs { time, stopped_timer, play_sound })
        },
    }
}

} // verus!

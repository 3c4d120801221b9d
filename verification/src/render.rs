//! Fixed-width textual rendering of an interval as "HH:MM:SS".

use vstd::prelude::*;
use vstd::string::StringExecFns;
use crate::duration::HmsTime;

verus! {

/// The decimal digit character for a value in [0, 10).
pub open spec fn digit_char(d: int) -> char {
    if d == 0 {
        '0'
    } else if d == 1 {
        '1'
    } else if d == 2 {
        '2'
    } else if d == 3 {
        '3'
    } else if d == 4 {
        '4'
    } else if d == 5 {
        '5'
    } else if d == 6 {
        '6'
    } else if d == 7 {
        '7'
    } else if d == 8 {
        '8'
    } else {
        '9'
    }
}

/// The decimal digits of `n`, most significant first, with no leading zero
/// except for `n == 0` itself.
pub open spec fn dec_digits(n: nat) -> Seq<char>
    decreases n,
{
    if n < 10 {
        seq![digit_char(n as int)]
    } else {
        dec_digits(n / 10).push(digit_char((n % 10) as int))
    }
}

/// The decimal digits of `n`, zero-padded on the left to at least two places.
pub open spec fn padded2(n: nat) -> Seq<char> {
    if n < 10 {
        seq!['0'] + dec_digits(n)
    } else {
        dec_digits(n)
    }
}

/// What `HmsTime::fmt` renders: each component zero-padded to at least two
/// digits, joined by colons.
pub open spec fn spec_render(t: HmsTime) -> Seq<char> {
    padded2(t.h as nat) + seq![':'] + padded2(t.m as nat) + seq![':'] + padded2(t.s as nat)
}

/// A one-character string for a single decimal digit.
fn digit_str(d: u64) -> (r: &'static str)
    requires
        d < 10,
    ensures
        r@ =~= seq![digit_char(d as int)],
{
    proof {
        reveal_strlit("0");
        reveal_strlit("1");
        reveal_strlit("2");
        reveal_strlit("3");
        reveal_strlit("4");
        reveal_strlit("5");
        reveal_strlit("6");
        reveal_strlit("7");
        reveal_strlit("8");
        reveal_strlit("9");
    }
    if d == 0 {
        "0"
    } else if d == 1 {
        "1"
    } else if d == 2 {
        "2"
    } else if d == 3 {
        "3"
    } else if d == 4 {
        "4"
    } else if d == 5 {
        "5"
    } else if d == 6 {
        "6"
    } else if d == 7 {
        "7"
    } else if d == 8 {
        "8"
    } else {
        "9"
    }
}

/// The decimal rendering of `n`, with no padding.
fn dec_string(n: u64) -> (r: String)
    ensures
        r@ == dec_digits(n as nat),
    decreases n,
{
    if n < 10 {
        String::from_str(digit_str(n))
    } else {
        let mut prefix = dec_string(n / 10);
        prefix.append(digit_str(n % 10));
        proof {
            assert(prefix@ =~= dec_digits(n as nat));
        }
        prefix
    }
}

/// The decimal rendering of `n`, zero-padded to at least two places.
fn padded2_string(n: u64) -> (r: String)
    ensures
        r@ == padded2(n as nat),
{
    if n < 10 {
        let mut out = String::from_str("0");
        out.append(dec_string(n).as_str());
        proof {
            reveal_strlit("0");
            assert(out@ =~= padded2(n as nat));
        }
        out
    } else {
        dec_string(n)
    }
}

impl HmsTime {
    /// Render the interval as "HH:MM:SS": every component zero-padded to two
    /// digits; hours may take more digits but are never truncated.
    pub fn fmt(&self) -> (r: String)
        ensures
            r@ == spec_render(*self),
    {
        let mut out = padded2_string(self.h);
        out.append(":");
        out.append(padded2_string(self.m).as_str());
        out.append(":");
        out.append(padded2_string(self.s).as_str());
        proof {
            reveal_strlit(":");
            assert(out@ =~= spec_render(*self));
        }
        out
    }
}

/// Decimal rendering is faithful: padding never changes the value. The
/// rendered digits of `n` are all digits, at least two of them, and they
/// read back as exactly `n`.
pub proof fn lemma_padded2_faithful(n: nat)
    ensures
        padded2(n).len() >= 2,
        forall|i: int| 0 <= i < padded2(n).len() ==> crate::args::is_digit(#[trigger] padded2(n)[i]),
        crate::args::dec_val(padded2(n)) == n,
{
    lemma_dec_digits_value(n);
    if n < 10 {
        let two = padded2(n);
        assert(two.len() == 2);
        assert(two[0] == '0' && two[1] == digit_char(n as int));
        assert(two.drop_last() =~= seq!['0']);
        assert(seq!['0'].drop_last() =~= Seq::<char>::empty());
        assert(crate::args::dec_val(seq!['0']) == crate::args::dec_val(Seq::<char>::empty()) * 10
            + crate::args::digit_val('0'));
        assert(crate::args::dec_val(two) == crate::args::dec_val(seq!['0']) * 10
            + crate::args::digit_val(two[1]));
        assert(crate::args::digit_val(digit_char(n as int)) == n);
    } else {
        assert(dec_digits(n) == dec_digits(n / 10).push(digit_char((n % 10) as int)));
        lemma_dec_digits_value(n / 10);
    }
}

/// The digits of `n` read back as `n`.
pub proof fn lemma_dec_digits_value(n: nat)
    ensures
        dec_digits(n).len() >= 1,
        forall|i: int| 0 <= i < dec_digits(n).len() ==> crate::args::is_digit(
            #[trigger] dec_digits(n)[i],
        ),
        crate::args::dec_val(dec_digits(n)) == n,
    decreases n,
{
    if n < 10 {
        assert(dec_digits(n).drop_last() =~= Seq::<char>::empty());
        assert(crate::args::dec_val(dec_digits(n)) == crate::args::dec_val(Seq::<char>::empty())
            * 10 + crate::args::digit_val(digit_char(n as int)));
        assert(crate::args::digit_val(digit_char(n as int)) == n);
    } else {
        lemma_dec_digits_value(n / 10);
        vstd::arithmetic::div_mod::lemma_fundamental_div_mod(n as int, 10);
        vstd::arithmetic::div_mod::lemma_mod_division_less_than_divisor(n as int, 10);
        assert(dec_digits(n).drop_last() =~= dec_digits(n / 10));
        assert(crate::args::dec_val(dec_digits(n)) == crate::args::dec_val(dec_digits(n / 10)) * 10
            + crate::args::digit_val(digit_char((n % 10) as int)));
    }
}

/// A value below 100 renders as exactly two digits.
pub proof fn lemma_padded2_len_small(n: nat)
    requires
        n < 100,
    ensures
        padded2(n).len() == 2,
{
    if n >= 10 {
        assert(dec_digits(n) == dec_digits(n / 10).push(digit_char((n % 10) as int)));
        assert(n / 10 < 10);
    }
}

/// The rendering is always at least eight characters wide: two digits per
/// component even for small values, never fewer; and for a normalized value
/// only the hours can widen it.
pub proof fn lemma_render_min_width(t: HmsTime)
    ensures
        spec_render(t).len() >= 8,
        t.is_normalized() ==> spec_render(t).len() == padded2(t.h as nat).len() + 6,
{
    lemma_padded2_faithful(t.h as nat);
    lemma_padded2_faithful(t.m as nat);
    lemma_padded2_faithful(t.s as nat);
    if t.is_normalized() {
        lemma_padded2_len_small(t.m as nat);
        lemma_padded2_len_small(t.s as nat);
    }
}

} // verus!

//! The duration model: an interval stored as hours, minutes and seconds.

use vstd::prelude::*;

verus! {

/// An interval of time stored as raw hours, minutes and seconds.
///
/// A value is *normalized* when minutes and seconds are both below 60;
/// hours are unbounded. Two values stand for the same interval exactly
/// when their total-seconds agree.
#[derive(Clone, Copy, Debug, PartialEq, Eq, Structural)]
pub struct HmsTime {
    pub h: u64,
    pub m: u64,
    pub s: u64,
}

impl HmsTime {
    /// The interval's length in seconds, as a mathematical integer.
    pub open spec fn spec_total_seconds(self) -> int {
        self.s + 60 * (self.m + 60 * self.h)
    }

    /// Minutes and seconds both lie in [0, 60).
    pub open spec fn is_normalized(self) -> bool {
        self.m < 60 && self.s < 60
    }

    /// The normalized form of an interval whose total length is `total` seconds.
    pub open spec fn spec_from_total(total: int) -> HmsTime {
        HmsTime {
            h: (total / 3600) as u64,
            m: ((total / 60) % 60) as u64,
            s: (total % 60) as u64,
        }
    }

    /// What `rebalanced` returns: the components redistributed so that
    /// minutes and seconds fall in [0, 60), keeping the total.
    pub open spec fn spec_rebalanced(self) -> HmsTime {
        Self::spec_from_total(self.spec_total_seconds())
    }

    /// What `from_seconds` returns.
    pub open spec fn spec_from_seconds(seconds: u64) -> HmsTime {
        Self::spec_from_total(seconds as int)
    }

    /// Create a normalized `HmsTime` holding the given number of seconds.
    pub fn from_seconds(seconds: u64) -> (r: HmsTime)
        ensures
            r == Self::spec_from_seconds(seconds),
            r.is_normalized(),
            r.spec_total_seconds() == seconds,
    {
        let result = HmsTime { h: 0, m: 0, s: seconds };
        proof {
            lemma_from_total_properties(seconds as int);
        }
        result.rebalanced()
    }

    /// The total number of seconds this interval represents.
    pub fn total_seconds(&self) -> (r: u64)
        requires
            self.spec_total_seconds() <= u64::MAX,
        ensures
            r == self.spec_total_seconds(),
    {
        proof {
            lemma_total_parts_fit(*self);
        }
        self.s + (self.m + self.h * 60) * 60
    }

    /// The total number of seconds, or `None` where it does not fit in a `u64`.
    pub fn checked_total_seconds(&self) -> (r: Option<u64>)
        ensures
            match r {
                Some(v) => v == self.spec_total_seconds(),
                None => self.spec_total_seconds() > u64::MAX,
            },
    {
        match self.h.checked_mul(60) {
            None => {
                proof {
                    assert(self.spec_total_seconds() > u64::MAX) by (nonlinear_arith)
                        requires
                            self.spec_total_seconds() == self.s + 60 * (self.m + 60 * self.h),
                            60 * (self.h as int) > u64::MAX,
                            self.s >= 0 && self.m >= 0,
                    ;
                }
                None
            },
            Some(h60) => match h60.checked_add(self.m) {
                None => {
                    proof {
                        assert(self.spec_total_seconds() > u64::MAX) by (nonlinear_arith)
                            requires
                                self.spec_total_seconds() == self.s + 60 * (self.m + 60 * self.h),
                                self.m + 60 * (self.h as int) > u64::MAX,
                                self.s >= 0,
                        ;
                    }
                    None
                },
                Some(mins) => match mins.checked_mul(60) {
                    None => {
                        proof {
                            assert(self.spec_total_seconds() > u64::MAX) by (nonlinear_arith)
                                requires
                                    self.spec_total_seconds() == self.s + 60 * (self.m + 60
                                        * self.h),
                                    mins == self.m + 60 * (self.h as int),
                                    60 * (mins as int) > u64::MAX,
                                    self.s >= 0,
                            ;
                        }
                        None
                    },
                    Some(mins60) => mins60.checked_add(self.s),
                },
            },
        }
    }

    /// Redistribute the raw components so that minutes and seconds fall in
    /// [0, 60), keeping the total length of the interval.
    pub fn rebalanced(&self) -> (r: HmsTime)
        requires
            self.spec_total_seconds() <= u64::MAX,
        ensures
            r == self.spec_rebalanced(),
            r.is_normalized(),
            r.spec_total_seconds() == self.spec_total_seconds(),
    {
        let total_seconds = self.total_seconds();
        let wrapped_seconds = total_seconds % 60;
        let total_minutes = (total_seconds - wrapped_seconds) / 60;
        let wrapped_minutes = total_minutes % 60;
        let total_hours = (total_minutes - wrapped_minutes) / 60;
        proof {
            lemma_from_total_properties(self.spec_total_seconds());
            assert(total_minutes == total_seconds as int / 60) by (nonlinear_arith)
                requires
                    total_minutes == (total_seconds - total_seconds % 60) as int / 60,
                    total_seconds >= 0,
            ;
            assert(total_hours == total_seconds as int / 3600) by (nonlinear_arith)
                requires
                    total_minutes == total_seconds as int / 60,
                    total_hours == (total_minutes - total_minutes % 60) as int / 60,
                    total_seconds >= 0,
            ;
        }
        HmsTime { h: total_hours, m: wrapped_minutes, s: wrapped_seconds }
    }
}

/// The parts of the total-seconds sum each fit in a `u64` once the whole does.
proof fn lemma_total_parts_fit(t: HmsTime)
    requires
        t.spec_total_seconds() <= u64::MAX,
    ensures
        t.h * 60 <= u64::MAX,
        (t.m + t.h * 60) * 60 <= u64::MAX,
        t.s + (t.m + t.h * 60) * 60 <= u64::MAX,
        t.s + (t.m + t.h * 60) * 60 == t.spec_total_seconds(),
{
    assert((t.m + t.h * 60) * 60 == 60 * (t.m + 60 * t.h)) by (nonlinear_arith);
    assert(t.h * 60 <= (t.m + t.h * 60) * 60) by (nonlinear_arith)
        requires
            t.m >= 0 && t.h >= 0,
    ;
}

/// Redistributing a non-negative total into h/m/s by division and modulus
/// gives a normalized value with the same total.
pub proof fn lemma_from_total_properties(total: int)
    requires
        0 <= total <= u64::MAX,
    ensures
        HmsTime::spec_from_total(total).is_normalized(),
        HmsTime::spec_from_total(total).spec_total_seconds() == total,
{
    let q = total / 60;
    vstd::arithmetic::div_mod::lemma_fundamental_div_mod(total, 60);
    vstd::arithmetic::div_mod::lemma_mod_division_less_than_divisor(total, 60);
    vstd::arithmetic::div_mod::lemma_div_pos_is_pos(total, 60);
    vstd::arithmetic::div_mod::lemma_div_nonincreasing(total, 60);
    vstd::arithmetic::div_mod::lemma_fundamental_div_mod(q, 60);
    vstd::arithmetic::div_mod::lemma_mod_division_less_than_divisor(q, 60);
    vstd::arithmetic::div_mod::lemma_div_pos_is_pos(q, 60);
    vstd::arithmetic::div_mod::lemma_div_nonincreasing(q, 60);
    vstd::arithmetic::div_mod::lemma_div_denominator(total, 60, 60);
    assert(total / 3600 == q / 60);
    assert(HmsTime::spec_from_total(total).spec_total_seconds() == total % 60 + 60 * (q % 60 + 60
        * (q / 60)));
}

/// Normalization keeps the total and lands in normalized form.
pub proof fn lemma_rebalanced_preserves_total(t: HmsTime)
    requires
        0 <= t.spec_total_seconds() <= u64::MAX,
    ensures
        t.spec_rebalanced().spec_total_seconds() == t.spec_total_seconds(),
        t.spec_rebalanced().is_normalized(),
{
    lemma_from_total_properties(t.spec_total_seconds());
}

/// Normalizing an already normalized value changes nothing.
pub proof fn lemma_rebalanced_of_normalized(t: HmsTime)
    requires
        t.is_normalized(),
        t.spec_total_seconds() <= u64::MAX,
    ensures
        t.spec_rebalanced() == t,
{
    let total = t.spec_total_seconds();
    assert(total / 60 == t.m + 60 * t.h && total % 60 == t.s) by (nonlinear_arith)
        requires
            total == t.s + 60 * (t.m + 60 * t.h),
            0 <= t.s < 60,
            t.m >= 0 && t.h >= 0,
    ;
    let q = total / 60;
    assert(q / 60 == t.h && q % 60 == t.m) by (nonlinear_arith)
        requires
            q == t.m + 60 * (t.h as int),
            0 <= t.m < 60,
            t.h >= 0,
    ;
    assert(total / 3600 == q / 60) by (nonlinear_arith)
        requires
            0 <= total,
            q == total / 60,
    ;
}

/// Normalization is idempotent: normalizing twice is normalizing once.
pub proof fn lemma_rebalanced_idempotent(t: HmsTime)
    requires
        0 <= t.spec_total_seconds() <= u64::MAX,
    ensures
        t.spec_rebalanced().spec_rebalanced() == t.spec_rebalanced(),
{
    lemma_rebalanced_preserves_total(t);
    lemma_rebalanced_of_normalized(t.spec_rebalanced());
}

/// The normalized form is unique: two normalized values with the same total
/// are equal component by component, so equal totals make intervals
/// interchangeable.
pub proof fn lemma_normalized_unique(a: HmsTime, b: HmsTime)
    requires
        a.is_normalized(),
        b.is_normalized(),
        a.spec_total_seconds() == b.spec_total_seconds(),
    ensures
        a == b,
{
    assert(a.s == b.s && a.m == b.m && a.h == b.h) by (nonlinear_arith)
        requires
            a.s + 60 * (a.m + 60 * (a.h as int)) == b.s + 60 * (b.m + 60 * (b.h as int)),
            0 <= a.s < 60,
            0 <= a.m < 60,
            0 <= b.s < 60,
            0 <= b.m < 60,
            a.h >= 0,
            b.h >= 0,
    ;
}

/// Round-trip: an interval built from `s` seconds totals exactly `s` seconds.
pub proof fn lemma_from_seconds_round_trip(seconds: u64)
    ensures
        HmsTime::spec_from_seconds(seconds).spec_total_seconds() == seconds,
        HmsTime::spec_from_seconds(seconds).is_normalized(),
{
    lemma_from_total_properties(seconds as int);
}

} // verus!

//! Brightness as a fixed-point fraction of full intensity.
//!
//! A brightness is a whole number of millionths between zero (off) and one million
//! (fully on). Every value that exists at run time lies in that range.

use vstd::prelude::*;

verus! {

/// The number of steps between off and fully on.
pub const SCALE: u32 = 1_000_000;

/// The whole number nearest to `numerator / denominator`; an exact half goes up.
pub open spec fn round_div(numerator: nat, denominator: nat) -> nat
    recommends
        denominator > 0,
{
    (2 * numerator + denominator) / (2 * denominator)
}

/// The brightness that stands for the fraction `numerator / denominator`: the nearest
/// millionth, at most fully on. Without a denominator there is no reading, which is off.
pub open spec fn ratio_level(numerator: nat, denominator: nat) -> nat {
    if denominator == 0 {
        0
    } else if round_div(numerator * SCALE as nat, denominator) >= SCALE {
        SCALE as nat
    } else {
        round_div(numerator * SCALE as nat, denominator)
    }
}

/// A brightness between off and fully on; its view is the number of millionths.
#[derive(Clone, Copy, Debug, PartialEq, Eq, Structural)]
pub struct Brightness {
    level: u32,
}

impl View for Brightness {
    type V = nat;

    closed spec fn view(&self) -> nat {
        self.level as nat
    }
}

impl Brightness {
    #[verifier::type_invariant]
    spec fn in_range(self) -> bool {
        self.level <= SCALE
    }

    /// Fully off.
    pub fn off() -> (b: Brightness)
        ensures
            b@ == 0,
    {
        Brightness { level: 0 }
    }

    /// Fully on.
    pub fn full() -> (b: Brightness)
        ensures
            b@ == SCALE,
    {
        Brightness { level: SCALE }
    }

    /// The brightness of `millionths` steps, where that is at most fully on.
    pub fn new(millionths: u32) -> (b: Option<Brightness>)
        ensures
            match b {
                Some(v) => millionths <= SCALE && v@ == millionths,
                None => millionths > SCALE,
            },
    {
        if millionths <= SCALE {
            Some(Brightness { level: millionths })
        } else {
            None
        }
    }

    /// The number of millionths.
    pub fn level(&self) -> (millionths: u32)
        ensures
            millionths == self@,
            millionths <= SCALE,
    {
        proof {
            use_type_invariant(self);
        }
        self.level
    }

    /// Whether this is off.
    pub fn is_off(&self) -> (off: bool)
        ensures
            off == (self@ == 0),
            self@ <= SCALE,
    {
        proof {
            use_type_invariant(self);
        }
        self.level == 0
    }

    /// Whether this is fully on.
    pub fn is_full(&self) -> (full: bool)
        ensures
            full == (self@ == SCALE),
            self@ <= SCALE,
    {
        proof {
            use_type_invariant(self);
        }
        self.level == SCALE
    }

    /// The brightness nearest to `numerator / denominator`, clamped to fully on; off when
    /// the denominator is zero.
    pub fn from_ratio(numerator: u64, denominator: u64) -> (b: Brightness)
        ensures
            b@ == ratio_level(numerator as nat, denominator as nat),
    {
        Brightness::from_wide_ratio(numerator, denominator as u128)
    }

    /// As `from_ratio`, for a denominator of up to a hundred bits.
    pub(crate) fn from_wide_ratio(numerator: u64, denominator: u128) -> (b: Brightness)
        requires
            denominator <= 0x10_0000_0000_0000_0000_0000_0000,
        ensures
            b@ == ratio_level(numerator as nat, denominator as nat),
    {
        if denominator == 0 {
            return Brightness { level: 0 };
        }
        assert(numerator * SCALE <= 0xffff_ffff_ffff_ffff * 1_000_000) by (nonlinear_arith)
            requires
                numerator <= 0xffff_ffff_ffff_ffff,
                SCALE == 1_000_000,
        ;
        let scaled: u128 = (numerator as u128) * (SCALE as u128);
        let nearest: u128 = (2 * scaled + denominator) / (2 * denominator);
        if nearest >= SCALE as u128 {
            Brightness { level: SCALE }
        } else {
            Brightness { level: nearest as u32 }
        }
    }

    /// The mean of `values`, to the nearest millionth; off when there are none.
    pub fn mean(values: &Vec<Brightness>) -> (m: Brightness)
        ensures
            m@ == mean_level(levels_of(values@)),
    {
        let count: usize = values.len();
        if count == 0 {
            return Brightness { level: 0 };
        }
        let mut sum: u128 = 0;
        let mut done: usize = 0;
        while done < count
            invariant
                done <= count == values.len(),
                sum == total(levels_of(values@.take(done as int))),
                sum <= done * 1_000_000,
            decreases count - done,
        {
            let value = values[done];
            proof {
                use_type_invariant(&value);
                let after = levels_of(values@.take(done + 1));
                assert(after.drop_last() =~= levels_of(values@.take(done as int)));
                assert(after.last() == value@);
            }
            sum = sum + value.level as u128;
            done += 1;
        }
        assert(values@.take(count as int) =~= values@);
        let nearest: u128 = (2 * sum + count as u128) / (2 * (count as u128));
        proof {
            lemma_round_div_monotonic(sum as nat, SCALE as nat * count as nat, count as nat);
            lemma_round_div_exact(SCALE as nat, count as nat);
        }
        Brightness { level: nearest as u32 }
    }
}

/// The sum of `levels`.
pub open spec fn total(levels: Seq<nat>) -> nat
    decreases levels.len(),
{
    if levels.len() == 0 {
        0
    } else {
        total(levels.drop_last()) + levels.last()
    }
}

/// The mean of `levels`, to the nearest whole number; zero when there are none.
pub open spec fn mean_level(levels: Seq<nat>) -> nat {
    if levels.len() == 0 {
        0
    } else {
        round_div(total(levels), levels.len())
    }
}

/// The number of millionths of each brightness in turn.
pub open spec fn levels_of(values: Seq<Brightness>) -> Seq<nat> {
    values.map_values(|value: Brightness| value@)
}

/// Two brightnesses of the same number of millionths are the same brightness.
pub proof fn lemma_level_identifies(a: Brightness, b: Brightness)
    requires
        a@ == b@,
    ensures
        a == b,
{
}

/// `round_div` is the nearest whole number: twice its distance from the exact quotient
/// is at most one, and it is strictly less than one on the upper side.
pub proof fn lemma_round_div_nearest(numerator: nat, denominator: nat)
    requires
        denominator > 0,
    ensures
        2 * numerator - denominator < 2 * denominator * round_div(numerator, denominator)
            <= 2 * numerator + denominator,
{
    let q = round_div(numerator, denominator);
    let n = (2 * numerator + denominator) as int;
    let d = (2 * denominator) as int;
    vstd::arithmetic::div_mod::lemma_fundamental_div_mod(n, d);
    vstd::arithmetic::div_mod::lemma_mod_bound(n, d);
    assert(2 * denominator * q == d * (n / d)) by (nonlinear_arith)
        requires
            q == n / d,
            d == 2 * denominator,
    ;
}

/// A larger numerator never rounds to a smaller number.
pub proof fn lemma_round_div_monotonic(smaller: nat, larger: nat, denominator: nat)
    requires
        denominator > 0,
        smaller <= larger,
    ensures
        round_div(smaller, denominator) <= round_div(larger, denominator),
{
    vstd::arithmetic::div_mod::lemma_div_is_ordered(
        (2 * smaller + denominator) as int,
        (2 * larger + denominator) as int,
        (2 * denominator) as int,
    );
}

/// A whole multiple of the denominator rounds to its exact quotient.
pub proof fn lemma_round_div_exact(quotient: nat, denominator: nat)
    requires
        denominator > 0,
    ensures
        round_div(quotient * denominator, denominator) == quotient,
{
    let d = (2 * denominator) as int;
    assert(2 * (quotient * denominator) + denominator == quotient * d + denominator)
        by (nonlinear_arith)
        requires
            d == 2 * denominator,
    ;
    vstd::arithmetic::div_mod::lemma_fundamental_div_mod_converse(
        (2 * (quotient * denominator) + denominator) as int,
        d,
        quotient as int,
        denominator as int,
    );
}

/// A fraction stands for the same brightness when both its parts are multiplied by the
/// same number.
pub proof fn lemma_ratio_level_scales(numerator: nat, denominator: nat, factor: nat)
    requires
        factor > 0,
    ensures
        ratio_level(numerator * factor, denominator * factor) == ratio_level(
            numerator,
            denominator,
        ),
{
    if denominator == 0 {
        assert(0 * factor == 0) by (nonlinear_arith);
    } else {
        let scale = SCALE as nat;
        assert(denominator * factor > 0) by (nonlinear_arith)
            requires
                denominator > 0,
                factor > 0,
        ;
        assert(2 * (numerator * factor * scale) + denominator * factor == factor * (2 * (
            numerator * scale) + denominator)) by (nonlinear_arith);
        assert(2 * (denominator * factor) == factor * (2 * denominator)) by (nonlinear_arith);
        vstd::arithmetic::div_mod::lemma_div_multiples_vanish_quotient(
            factor as int,
            (2 * (numerator * scale) + denominator) as int,
            (2 * denominator) as int,
        );
    }
}

/// A numerator that is no less than the denominator stands for fully on.
pub proof fn lemma_ratio_level_saturates(numerator: nat, denominator: nat)
    requires
        0 < denominator <= numerator,
    ensures
        ratio_level(numerator, denominator) == SCALE,
{
    let scale = SCALE as nat;
    assert(scale * denominator <= numerator * scale) by (nonlinear_arith)
        requires
            denominator <= numerator,
    ;
    lemma_round_div_exact(scale, denominator);
    lemma_round_div_monotonic(scale * denominator, numerator * scale, denominator);
}

} // verus!

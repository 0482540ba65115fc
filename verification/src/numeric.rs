//! Greatest common divisors and integer roots.

use vstd::prelude::*;

verus! {

/// Euclid's definition of the greatest common divisor; `gcd(0, 0)` is 0.
pub open spec fn gcd(a: nat, b: nat) -> nat
    decreases b,
{
    if b == 0 {
        a
    } else {
        gcd(b, a % b)
    }
}

/// The running divisor of a sequence, folded from the left and starting at 0.
pub open spec fn gcd_fold(numbers: Seq<u64>) -> nat
    decreases numbers.len(),
{
    if numbers.len() == 0 {
        0
    } else {
        gcd(gcd_fold(numbers.drop_last()), numbers.last() as nat)
    }
}

/// `base` raised to `exp`.
pub open spec fn pow(base: nat, exp: nat) -> nat
    decreases exp,
{
    if exp == 0 {
        1
    } else {
        base * pow(base, (exp - 1) as nat)
    }
}

/// The value reached by stepping up from `k` for as long as the next
/// candidate, raised to `power`, does not exceed `x`. For `power >= 1` the
/// guard `k < x` is implied by the other one; it is what makes the steps
/// finite.
pub open spec fn root_from(k: nat, x: nat, power: nat) -> nat
    decreases x - k,
{
    if k < x && pow(k + 1, power) <= x {
        root_from(k + 1, x, power)
    } else {
        k
    }
}

/// The integer root that an exercise expects: the search of `root_from`
/// started at 1. It is 1 when `x` is 0.
pub open spec fn largest_root_of(x: nat, power: nat) -> nat {
    root_from(1, x, power)
}

/// Calls `num::integer::gcd` on two `u64`. The crate computes the greatest
/// common divisor of its arguments, with a zero argument giving the other one.
#[verifier::external_body]
pub(crate) fn gcd_u64(a: u64, b: u64) -> (r: u64)
    ensures
        r as nat == gcd(a as nat, b as nat),
{
    num::integer::gcd(a, b)
}

/// Folds the numbers with the greatest common divisor, in order, from 0.
pub fn running_gcd(numbers: &Vec<u64>) -> (r: u64)
    ensures
        r as nat == gcd_fold(numbers@),
{
    let mut acc: u64 = 0;
    let mut i: usize = 0;
    while i < numbers.len()
        invariant
            i <= numbers.len(),
            acc as nat == gcd_fold(numbers@.take(i as int)),
        decreases numbers.len() - i,
    {
        proof {
            assert(numbers@.take(i + 1).drop_last() =~= numbers@.take(i as int));
        }
        acc = gcd_u64(acc, numbers[i]);
        i += 1;
    }
    proof {
        assert(numbers@.take(i as int) =~= numbers@);
    }
    acc
}

/// A power never falls below 1 when its base is at least 1, and grows with
/// the exponent.
pub proof fn lemma_pow_grows(base: nat, lo: nat, hi: nat)
    requires
        base >= 1,
        lo <= hi,
    ensures
        1 <= pow(base, lo) <= pow(base, hi),
    decreases hi,
{
    if lo == 0 {
        if hi > 0 {
            lemma_pow_grows(base, 0, (hi - 1) as nat);
            assert(pow(base, (hi - 1) as nat) <= base * pow(base, (hi - 1) as nat))
                by (nonlinear_arith)
                requires
                    base >= 1,
            ;
        }
    } else {
        lemma_pow_grows(base, (lo - 1) as nat, (hi - 1) as nat);
        assert(base * pow(base, (lo - 1) as nat) <= base * pow(base, (hi - 1) as nat))
            by (nonlinear_arith)
            requires
                pow(base, (lo - 1) as nat) <= pow(base, (hi - 1) as nat),
        ;
        assert(1 <= base * pow(base, (lo - 1) as nat)) by (nonlinear_arith)
            requires
                base >= 1,
                1 <= pow(base, (lo - 1) as nat),
        ;
    }
}

/// Whether `base` raised to `exp` stays within `limit`, computed without
/// overflow.
pub fn power_within(base: u64, exp: u8, limit: u64) -> (r: bool)
    requires
        base >= 1,
    ensures
        r == (pow(base as nat, exp as nat) <= limit as nat),
{
    if limit == 0 {
        proof {
            lemma_pow_grows(base as nat, 0, exp as nat);
        }
        return false;
    }
    let mut acc: u64 = 1;
    let mut i: u8 = 0;
    while i < exp
        invariant
            i <= exp,
            base >= 1,
            acc as nat == pow(base as nat, i as nat),
            acc <= limit,
        decreases exp - i,
    {
        if acc > limit / base {
            proof {
                assert(acc as nat * base as nat > limit as nat) by (nonlinear_arith)
                    requires
                        acc > limit / base,
                        base >= 1,
                ;
                assert(pow(base as nat, (i + 1) as nat) == base as nat * pow(
                    base as nat,
                    i as nat,
                ));
                assert(base as nat * acc as nat == acc as nat * base as nat)
                    by (nonlinear_arith);
                lemma_pow_grows(base as nat, (i + 1) as nat, exp as nat);
            }
            return false;
        }
        proof {
            assert(acc as nat * base as nat <= limit as nat) by (nonlinear_arith)
                requires
                    acc <= limit / base,
                    base >= 1,
            ;
            assert(pow(base as nat, (i + 1) as nat) == base as nat * pow(base as nat, i as nat));
            assert(base as nat * acc as nat == acc as nat * base as nat) by (nonlinear_arith);
        }
        acc = acc * base;
        i += 1;
    }
    true
}

/// With exponent 1 the search ends at `x`, unless it started above it.
pub proof fn lemma_root_linear(k: nat, x: nat)
    ensures
        root_from(k, x, 1) == if k < x { x } else { k },
    decreases x - k,
{
    assert(pow(k + 1, 1) == (k + 1) * pow(k + 1, 0));
    assert(pow(k + 1, 0) == 1);
    assert((k + 1) * 1 == k + 1);
    if k < x {
        lemma_root_linear(k + 1, x);
    }
}

/// The largest `k >= 1` whose `power`-th power does not exceed `x`, found as
/// the search from 1 upwards finds it; 1 where no such `k` exists.
pub fn largest_root(x: u64, power: u8) -> (r: u64)
    requires
        power >= 1,
    ensures
        r as nat == largest_root_of(x as nat, power as nat),
{
    if power == 1 {
        proof {
            lemma_root_linear(1, x as nat);
        }
        return if x > 1 { x } else { 1 };
    }
    let mut k: u64 = 1;
    while k < x && power_within(k + 1, power, x)
        invariant
            k >= 1,
            root_from(k as nat, x as nat, power as nat) == largest_root_of(x as nat, power as nat),
        decreases x - k,
    {
        k += 1;
    }
    k
}

/// The root lies in the bracket that defines it: for `x >= 1` and
/// `power >= 1` its power does not exceed `x`, and the power of its successor
/// does.
pub proof fn lemma_root_bracket(x: nat, power: nat)
    requires
        x >= 1,
        power >= 1,
    ensures
        largest_root_of(x, power) >= 1,
        pow(largest_root_of(x, power), power) <= x,
        x < pow(largest_root_of(x, power) + 1, power),
{
    lemma_pow_grows(1, 0, power);
    lemma_one_pow(power);
    lemma_root_from_bracket(1, x, power);
}

/// A power grows with its base.
pub proof fn lemma_pow_base_grows(a: nat, b: nat, exp: nat)
    requires
        a <= b,
    ensures
        pow(a, exp) <= pow(b, exp),
    decreases exp,
{
    if exp > 0 {
        lemma_pow_base_grows(a, b, (exp - 1) as nat);
        assert(a * pow(a, (exp - 1) as nat) <= b * pow(b, (exp - 1) as nat))
            by (nonlinear_arith)
            requires
                a <= b,
                pow(a, (exp - 1) as nat) <= pow(b, (exp - 1) as nat),
        ;
    }
}

/// The bracket has room for one number only: whatever lies in it is the root.
pub proof fn lemma_root_unique(x: nat, power: nat, k: nat)
    requires
        x >= 1,
        power >= 1,
        k >= 1,
        pow(k, power) <= x < pow(k + 1, power),
    ensures
        k == largest_root_of(x, power),
{
    let r = largest_root_of(x, power);
    lemma_root_bracket(x, power);
    if k < r {
        lemma_pow_base_grows(k + 1, r, power);
    } else if r < k {
        lemma_pow_base_grows(r + 1, k, power);
    }
}

/// Every power of 1 is 1.
pub proof fn lemma_one_pow(exp: nat)
    ensures
        pow(1, exp) == 1,
    decreases exp,
{
    if exp > 0 {
        lemma_one_pow((exp - 1) as nat);
    }
}

/// The bracket holds of a search from any start whose own power is within `x`.
pub proof fn lemma_root_from_bracket(k: nat, x: nat, power: nat)
    requires
        k >= 1,
        power >= 1,
        pow(k, power) <= x,
    ensures
        root_from(k, x, power) >= k,
        pow(root_from(k, x, power), power) <= x,
        x < pow(root_from(k, x, power) + 1, power),
    decreases x - k,
{
    if k < x && pow(k + 1, power) <= x {
        lemma_root_from_bracket(k + 1, x, power);
    } else if !(k < x) {
        lemma_pow_grows(k + 1, 1, power);
        assert(pow(k + 1, 1) == (k + 1) * pow(k + 1, 0));
        assert(pow(k + 1, 0) == 1);
        assert((k + 1) * 1 == k + 1);
    }
}

} // verus!

//! Whole shares: sums divided by a number without losing any of the total.
//!
//! A mean of probabilities is a row of sums divided by one and the same
//! number. Rounding each quotient down would lose up to one unit for each
//! component, so that a mean of distributions would no longer add up to
//! one. Here the components that were rounded down are rounded up instead,
//! from the first on, until nothing of the total is lost. Each share stays
//! within one unit of the exact quotient, and a quotient that is exact is
//! not touched.

use vstd::prelude::*;
use vstd::arithmetic::div_mod::{
    lemma_div_multiples_vanish_quotient, lemma_fundamental_div_mod, lemma_hoist_over_denominator,
    lemma_div_is_ordered, lemma_div_multiples_vanish, lemma_mod_bound, lemma_mod_multiples_basic,
    lemma_truncate_middle,
};
use crate::probability::{as_nats, lemma_total_take_next, total};

verus! {

/// The sums divided by `n`, each rounded down.
pub open spec fn quotients(sums: Seq<nat>, n: nat) -> Seq<nat> {
    Seq::new(sums.len(), |k: int| sums[k] / n)
}

/// What the division of each sum by `n` leaves over.
pub open spec fn remainders(sums: Seq<nat>, n: nat) -> Seq<nat> {
    Seq::new(sums.len(), |k: int| sums[k] % n)
}

/// The whole units of the total that rounding every quotient down loses.
pub open spec fn lost(sums: Seq<nat>, n: nat) -> nat {
    total(remainders(sums, n)) / n
}

/// The number of sums before position `k` that `n` does not divide.
pub open spec fn inexact_before(sums: Seq<nat>, n: nat, k: int) -> nat
    decreases k,
{
    if k <= 0 {
        0
    } else {
        inexact_before(sums, n, k - 1) + if sums[k - 1] % n != 0 {
            1nat
        } else {
            0nat
        }
    }
}

/// Whether the quotient at position `k` is rounded up: it is not exact, and
/// fewer quotients before it were rounded up than units are lost.
pub open spec fn rounded_up(sums: Seq<nat>, n: nat, k: int) -> bool {
    sums[k] % n != 0 && inexact_before(sums, n, k) < lost(sums, n)
}

/// The share at position `k`: the quotient, rounded down or up.
pub open spec fn share(sums: Seq<nat>, n: nat, k: int) -> nat {
    sums[k] / n + if rounded_up(sums, n, k) {
        1nat
    } else {
        0nat
    }
}

/// The sums divided by `n` in whole shares that lose nothing of the total.
pub open spec fn rounded_shares(sums: Seq<nat>, n: nat) -> Seq<nat> {
    Seq::new(sums.len(), |k: int| share(sums, n, k))
}

/// Each sum times `factor`.
pub open spec fn scaled(sums: Seq<nat>, factor: nat) -> Seq<nat> {
    Seq::new(sums.len(), |k: int| factor * sums[k])
}

/// Wide machine numbers as mathematical ones.
pub open spec fn wide_nats(s: Seq<u128>) -> Seq<nat> {
    Seq::new(s.len(), |k: int| s[k] as nat)
}

/// The smaller of two numbers.
pub open spec fn least(a: nat, b: nat) -> nat {
    if a <= b {
        a
    } else {
        b
    }
}

proof fn lemma_prefix(sums: Seq<nat>, n: nat, k: int)
    requires
        n > 0,
        0 <= k <= sums.len(),
    ensures
        total(sums.take(k)) == n * total(quotients(sums, n).take(k)) + total(
            remainders(sums, n).take(k),
        ),
        total(remainders(sums, n).take(k)) <= inexact_before(sums, n, k) * (n - 1),
        total(rounded_shares(sums, n).take(k)) == total(quotients(sums, n).take(k)) + least(
            lost(sums, n),
            inexact_before(sums, n, k),
        ),
        inexact_before(sums, n, k) <= k,
    decreases k,
{
    let q = quotients(sums, n);
    let r = remainders(sums, n);
    let s = rounded_shares(sums, n);
    if k == 0 {
        assert(n * 0 == 0) by (nonlinear_arith);
        assert(0 * (n - 1) == 0) by (nonlinear_arith);
    } else {
        lemma_prefix(sums, n, k - 1);
        lemma_total_take_next(sums, k - 1);
        lemma_total_take_next(q, k - 1);
        lemma_total_take_next(r, k - 1);
        lemma_total_take_next(s, k - 1);
        let x = sums[k - 1];
        lemma_fundamental_div_mod(x as int, n as int);
        lemma_mod_bound(x as int, n as int);
        let qs = total(q.take(k - 1));
        let before = inexact_before(sums, n, k - 1);
        assert(n * (qs + x / n) == n * qs + n * (x / n)) by (nonlinear_arith);
        assert(before * (n - 1) + (n - 1) == (before + 1) * (n - 1)) by (nonlinear_arith);
    }
}

/// The shares add up to the whole of the total divided by `n`: nothing is
/// lost to the rounding.
pub proof fn lemma_rounded_shares_total(sums: Seq<nat>, n: nat)
    requires
        n > 0,
    ensures
        total(rounded_shares(sums, n)) == total(sums) / n,
{
    let k = sums.len() as int;
    lemma_prefix(sums, n, k);
    assert(sums.take(k) =~= sums);
    assert(quotients(sums, n).take(k) =~= quotients(sums, n));
    assert(remainders(sums, n).take(k) =~= remainders(sums, n));
    assert(rounded_shares(sums, n).take(k) =~= rounded_shares(sums, n));
    let qs = total(quotients(sums, n)) as int;
    let rs = total(remainders(sums, n)) as int;
    let inexact = inexact_before(sums, n, k) as int;
    assert(rs <= inexact * n) by (nonlinear_arith)
        requires
            0 <= rs <= inexact * (n - 1),
            inexact >= 0,
            n > 0,
    ;
    lemma_div_is_ordered(rs, inexact * n, n as int);
    lemma_div_multiples_vanish(inexact, n as int);
    assert(inexact * n == n * inexact) by (nonlinear_arith);
    lemma_hoist_over_denominator(rs, qs, n);
    assert(qs * n == n * qs) by (nonlinear_arith);
}

/// Each share is within one unit of the exact quotient, and it is the
/// quotient where that is exact.
pub proof fn lemma_share_is_near(sums: Seq<nat>, n: nat, k: int)
    requires
        n > 0,
        0 <= k < sums.len(),
    ensures
        sums[k] / n <= share(sums, n, k) <= sums[k] / n + 1,
        sums[k] % n == 0 ==> share(sums, n, k) == sums[k] / n,
        sums[k] < n * share(sums, n, k) + n,
        n * share(sums, n, k) < sums[k] + n,
{
    let x = sums[k];
    lemma_fundamental_div_mod(x as int, n as int);
    lemma_mod_bound(x as int, n as int);
    assert(n * (x / n + 1) == n * (x / n) + n) by (nonlinear_arith);
}

/// A share lies between two numbers where the exact quotient does.
pub proof fn lemma_share_in_range(sums: Seq<nat>, n: nat, k: int, low: nat, high: nat)
    requires
        n > 0,
        0 <= k < sums.len(),
        low * n <= sums[k] <= high * n,
    ensures
        low <= share(sums, n, k) <= high,
{
    let x = sums[k] as int;
    let d = n as int;
    lemma_fundamental_div_mod(x, d);
    lemma_mod_bound(x, d);
    lemma_div_is_ordered(low * d, x, d);
    lemma_div_multiples_vanish(low as int, d);
    assert(low * d == d * low) by (nonlinear_arith);
    lemma_div_is_ordered(x, high * d, d);
    lemma_div_multiples_vanish(high as int, d);
    assert(high * d == d * high) by (nonlinear_arith);
    if x % d != 0 {
        lemma_mod_multiples_basic(high as int, d);
        assert(x < high * d);
        assert(x / d < high) by (nonlinear_arith)
            requires
                x == d * (x / d) + x % d,
                0 < x % d,
                x < high * d,
                d > 0,
        ;
    }
}

/// Sums that `n` divides come out exactly.
pub proof fn lemma_exact_shares(sums: Seq<nat>, n: nat)
    requires
        n > 0,
        forall|k: int| 0 <= k < sums.len() ==> #[trigger] sums[k] % n == 0,
    ensures
        rounded_shares(sums, n) == quotients(sums, n),
{
    assert(rounded_shares(sums, n) =~= quotients(sums, n));
}

proof fn lemma_scaled_prefix(sums: Seq<nat>, n: nat, factor: nat, k: int)
    requires
        n > 0,
        factor > 0,
        0 <= k <= sums.len(),
    ensures
        inexact_before(scaled(sums, factor), factor * n, k) == inexact_before(sums, n, k),
        total(remainders(scaled(sums, factor), factor * n).take(k)) == factor * total(
            remainders(sums, n).take(k),
        ),
    decreases k,
{
    let big = scaled(sums, factor);
    assert(factor * n > 0) by (nonlinear_arith)
        requires
            factor > 0,
            n > 0,
    ;
    let m: nat = factor * n;
    let rests = remainders(big, m);
    assert(rests.len() == sums.len());
    if k == 0 {
        assert(factor * 0 == 0) by (nonlinear_arith);
    } else {
        lemma_scaled_prefix(sums, n, factor, k - 1);
        lemma_total_take_next(rests, k - 1);
        lemma_total_take_next(remainders(sums, n), k - 1);
        let x = sums[k - 1];
        let rest = x % n;
        lemma_truncate_middle(x as int, factor as int, n as int);
        lemma_mod_bound(x as int, n as int);
        let before = total(remainders(sums, n).take(k - 1));
        assert(factor * before + factor * rest == factor * (before + rest)) by (nonlinear_arith);
        assert(factor * rest != 0 <==> rest != 0) by (nonlinear_arith)
            requires
                factor > 0,
                rest >= 0,
        ;
        assert(big[k - 1] == factor * x);
    }
}

/// The shares do not change where the sums and the number that divides
/// them are multiplied by one and the same factor.
pub proof fn lemma_scaled_shares(sums: Seq<nat>, n: nat, factor: nat)
    requires
        n > 0,
        factor > 0,
    ensures
        rounded_shares(scaled(sums, factor), factor * n) == rounded_shares(sums, n),
{
    let big = scaled(sums, factor);
    assert(factor * n > 0) by (nonlinear_arith)
        requires
            factor > 0,
            n > 0,
    ;
    let m: nat = factor * n;
    let len = sums.len() as int;
    lemma_scaled_prefix(sums, n, factor, len);
    assert(remainders(big, m).take(len) =~= remainders(big, m));
    assert(remainders(sums, n).take(len) =~= remainders(sums, n));
    let rs = total(remainders(sums, n));
    lemma_div_multiples_vanish_quotient(factor as int, rs as int, n as int);
    assert(lost(big, m) == lost(sums, n));
    assert forall|k: int| 0 <= k < len implies share(big, m, k) == share(sums, n, k) by {
        let x = sums[k];
        lemma_scaled_prefix(sums, n, factor, k);
        lemma_div_multiples_vanish_quotient(factor as int, x as int, n as int);
        lemma_truncate_middle(x as int, factor as int, n as int);
        lemma_mod_bound(x as int, n as int);
        let rest = x % n;
        assert(factor * rest != 0 <==> rest != 0) by (nonlinear_arith)
            requires
                factor > 0,
                rest >= 0,
        ;
        assert(big[k] == factor * x);
    }
    assert(rounded_shares(big, m) =~= rounded_shares(sums, n));
}

/// Divides the sums by `n` in whole shares that lose nothing of the total:
/// see [`rounded_shares`].
pub fn share_out(sums: &Vec<u128>, n: u128) -> (shares: Vec<u32>)
    requires
        0 < n <= 0xFFFF_FFFF_FFFF_FFFF_FFFF_FFFF,
        sums@.len() <= 16,
        forall|k: int| 0 <= k < sums@.len() ==> #[trigger] sums@[k] <= n * 0xFFFF_FFFF,
    ensures
        as_nats(shares@) == rounded_shares(wide_nats(sums@), n as nat),
        shares@.len() == sums@.len(),
{
    let ghost all = wide_nats(sums@);
    let ghost divisor = n as nat;
    let mut left_over: u128 = 0;
    let mut k: usize = 0;
    while k < sums.len()
        invariant
            k <= sums.len(),
            sums@.len() <= 16,
            0 < n <= 0xFFFF_FFFF_FFFF_FFFF_FFFF_FFFF,
            all == wide_nats(sums@),
            divisor == n as nat,
            left_over == total(remainders(all, divisor).take(k as int)),
            left_over <= k * n,
        decreases sums.len() - k,
    {
        proof {
            lemma_total_take_next(remainders(all, divisor), k as int);
            lemma_mod_bound(sums@[k as int] as int, n as int);
            assert(k * n + n == (k + 1) * n) by (nonlinear_arith);
            assert((k + 1) * n <= 16 * n) by (nonlinear_arith)
                requires
                    k + 1 <= 16,
                    n > 0,
            ;
        }
        left_over = left_over + sums[k] % n;
        k = k + 1;
    }
    proof {
        assert(remainders(all, divisor).take(k as int) =~= remainders(all, divisor));
        assert(k * n <= 16 * n) by (nonlinear_arith)
            requires
                k <= 16,
                n > 0,
        ;
        assert(left_over / n <= 16) by (nonlinear_arith)
            requires
                left_over <= 16 * n,
                n > 0,
        ;
    }
    let to_give: u128 = left_over / n;
    let mut shares: Vec<u32> = Vec::new();
    let mut seen: u128 = 0;
    let mut k: usize = 0;
    while k < sums.len()
        invariant
            k <= sums.len(),
            sums@.len() <= 16,
            0 < n <= 0xFFFF_FFFF_FFFF_FFFF_FFFF_FFFF,
            all == wide_nats(sums@),
            divisor == n as nat,
            to_give == lost(all, divisor),
            seen == inexact_before(all, divisor, k as int),
            seen <= k,
            shares@.len() == k,
            forall|j: int| 0 <= j < k ==> shares@[j] as nat == share(all, divisor, j),
            forall|j: int| 0 <= j < sums@.len() ==> #[trigger] sums@[j] <= n * 0xFFFF_FFFF,
        decreases sums.len() - k,
    {
        let sum: u128 = sums[k];
        let quotient: u128 = sum / n;
        let inexact: bool = sum % n != 0;
        proof {
            assert(sums@[k as int] <= n * 0xFFFF_FFFF);
            assert(all[k as int] == sum as nat);
            assert(quotient <= 0xFFFF_FFFF) by (nonlinear_arith)
                requires
                    quotient == sum / n,
                    sum <= n * 0xFFFF_FFFF,
                    n > 0,
            ;
            if inexact {
                lemma_mod_multiples_basic(0xFFFF_FFFF, n as int);
                assert(0xFFFF_FFFF * n == n * 0xFFFF_FFFF) by (nonlinear_arith);
                assert(sum != n * 0xFFFF_FFFF);
                assert(quotient < 0xFFFF_FFFF) by (nonlinear_arith)
                    requires
                        quotient == sum / n,
                        sum < n * 0xFFFF_FFFF,
                        n > 0,
                ;
            }
        }
        let given: u128 = if inexact && seen < to_give {
            quotient + 1
        } else {
            quotient
        };
        shares.push(given as u32);
        if inexact {
            seen = seen + 1;
        }
        k = k + 1;
    }
    proof {
        assert(as_nats(shares@) =~= rounded_shares(all, divisor));
    }
    shares
}

} // verus!

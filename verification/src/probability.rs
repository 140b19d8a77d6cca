//! Fixed-point probabilities.
//!
//! A probability is a `u32` that counts billionths: `0` is "impossible" or
//! "no opinion", [`ONE`] is certainty. A distribution is a short sequence of
//! such numbers; it either holds no opinion (every component is zero) or its
//! components add up to [`ONE`]. A mean of distributions is made of whole
//! shares, so that it adds up to [`ONE`] again: each component is within one
//! billionth of the exact mean.

use vstd::prelude::*;
use vstd::arithmetic::div_mod::lemma_div_multiples_vanish;
use crate::shares::{
    lemma_rounded_shares_total, lemma_scaled_shares, lemma_share_in_range, lemma_share_is_near,
    rounded_shares, scaled,
};

verus! {

/// Certainty: the probability 1.0, in billionths.
pub const ONE: u32 = 1_000_000_000;

/// The least probability that is shown as strong confidence: 0.8.
pub const STRONG_THRESHOLD: u32 = 800_000_000;

/// The least probability that is shown as medium confidence: 0.5.
pub const MEDIUM_THRESHOLD: u32 = 500_000_000;

/// The sum of all components of a distribution.
pub open spec fn total(d: Seq<nat>) -> nat
    decreases d.len(),
{
    if d.len() == 0 {
        0
    } else {
        total(d.drop_last()) + d.last()
    }
}

/// A distribution holds an opinion when some component is not zero.
pub open spec fn has_opinion(d: Seq<nat>) -> bool {
    exists|k: int| 0 <= k < d.len() && d[k] > 0
}

/// The distribution of the given width that holds no opinion.
pub open spec fn no_opinion(width: nat) -> Seq<nat> {
    Seq::new(width, |k: int| 0nat)
}

/// A distribution is well formed when it holds no opinion or adds up to one.
pub open spec fn well_formed(d: Seq<nat>) -> bool {
    !has_opinion(d) || total(d) == ONE
}

/// A sequence of machine numbers as mathematical ones.
pub open spec fn as_nats(s: Seq<u32>) -> Seq<nat> {
    Seq::new(s.len(), |k: int| s[k] as nat)
}

/// The sum of component `k` over all rows.
pub open spec fn column_sum(rows: Seq<Seq<nat>>, k: int) -> nat
    decreases rows.len(),
{
    if rows.len() == 0 {
        0
    } else {
        column_sum(rows.drop_last(), k) + rows.last()[k]
    }
}

/// The rows that hold an opinion, in their order.
pub open spec fn opinions(rows: Seq<Seq<nat>>) -> Seq<Seq<nat>> {
    rows.filter(|d: Seq<nat>| has_opinion(d))
}

/// The sum of each of the first `width` components over all rows.
pub open spec fn column_sums(rows: Seq<Seq<nat>>, width: nat) -> Seq<nat> {
    Seq::new(width, |k: int| column_sum(rows, k))
}

/// The unweighted mean of the rows that hold an opinion: the sum of each
/// component divided by the number of those rows, in whole shares that lose
/// nothing of the total. A row without an opinion is left out: it is no
/// vote for zero. Without any opinion the mean holds none.
pub open spec fn mean_distribution(rows: Seq<Seq<nat>>, width: nat) -> Seq<nat> {
    let held = opinions(rows);
    if held.len() == 0 {
        no_opinion(width)
    } else {
        rounded_shares(column_sums(held, width), held.len())
    }
}

/// The number of rows that have a weight.
pub open spec fn weighted_rows(rows: Seq<Seq<nat>>, weights: Seq<nat>) -> nat {
    if rows.len() <= weights.len() {
        rows.len()
    } else {
        weights.len()
    }
}

/// The sum of component `k` over the first `n` rows, each times its weight.
pub open spec fn weighted_column_sum(rows: Seq<Seq<nat>>, weights: Seq<nat>, k: int, n: nat) -> nat
    decreases n,
{
    if n == 0 {
        0
    } else {
        weighted_column_sum(rows, weights, k, (n - 1) as nat) + rows[n - 1][k] * weights[n - 1]
    }
}

/// The weighted sum of each of the first `width` components over the rows
/// that have a weight.
pub open spec fn weighted_column_sums(rows: Seq<Seq<nat>>, weights: Seq<nat>, width: nat) -> Seq<
    nat,
> {
    Seq::new(
        width,
        |k: int| weighted_column_sum(rows, weights, k, weighted_rows(rows, weights)),
    )
}

/// The weighted mean of the rows: row `j` counts `weights[j]` times, and the
/// sum of each component is divided by the total of all weights, in whole
/// shares that lose nothing of the total. Weights that add up to zero give
/// no opinion.
pub open spec fn weighted_mean(rows: Seq<Seq<nat>>, weights: Seq<nat>, width: nat) -> Seq<nat> {
    if total(weights) == 0 {
        no_opinion(width)
    } else {
        rounded_shares(weighted_column_sums(rows, weights, width), total(weights))
    }
}

/// The sum over the first `n` rows of the total of each row times its
/// weight.
pub open spec fn weighted_totals(rows: Seq<Seq<nat>>, weights: Seq<nat>, n: nat) -> nat
    decreases n,
{
    if n == 0 {
        0
    } else {
        weighted_totals(rows, weights, (n - 1) as nat) + weights[n - 1] * total(rows[n - 1])
    }
}

/// The total of a prefix grows by the next component.
pub proof fn lemma_total_take_next(d: Seq<nat>, j: int)
    requires
        0 <= j < d.len(),
    ensures
        total(d.take(j + 1)) == total(d.take(j)) + d[j],
{
    assert(d.take(j + 1).drop_last() =~= d.take(j));
}

/// The total of a prefix is at most the total of the whole.
pub proof fn lemma_total_take_le(d: Seq<nat>, j: int)
    requires
        0 <= j <= d.len(),
    ensures
        total(d.take(j)) <= total(d),
    decreases d.len() - j,
{
    if j < d.len() {
        lemma_total_take_next(d, j);
        lemma_total_take_le(d, j + 1);
    } else {
        assert(d.take(j) =~= d);
    }
}

/// One more row adds its component to the sum of a column.
pub proof fn lemma_column_sum_push(rows: Seq<Seq<nat>>, row: Seq<nat>, k: int)
    ensures
        column_sum(rows.push(row), k) == column_sum(rows, k) + row[k],
{
    assert(rows.push(row).drop_last() =~= rows);
}

/// One more row joins the opinions exactly when it holds one.
pub proof fn lemma_opinions_push(rows: Seq<Seq<nat>>, row: Seq<nat>)
    ensures
        opinions(rows.push(row)) == if has_opinion(row) {
            opinions(rows).push(row)
        } else {
            opinions(rows)
        },
{
    reveal(Seq::filter);
    assert(rows.push(row).drop_last() =~= rows);
}

/// Every row among the opinions holds one and is a row of the input.
pub proof fn lemma_opinions_hold(rows: Seq<Seq<nat>>)
    ensures
        opinions(rows).len() <= rows.len(),
        forall|j: int| 0 <= j < opinions(rows).len() ==> has_opinion(#[trigger] opinions(rows)[j]),
        forall|j: int|
            0 <= j < opinions(rows).len() ==> rows.contains(#[trigger] opinions(rows)[j]),
        forall|j: int|
            0 <= j < rows.len() && has_opinion(rows[j]) ==> opinions(rows).contains(
                #[trigger] rows[j],
            ),
    decreases rows.len(),
{
    reveal(Seq::filter);
    if rows.len() > 0 {
        let front = rows.drop_last();
        lemma_opinions_hold(front);
        assert(front.push(rows.last()) =~= rows);
        lemma_opinions_push(front, rows.last());
        let held = opinions(rows);
        assert forall|j: int| 0 <= j < held.len() implies rows.contains(#[trigger] held[j]) by {
            if j < opinions(front).len() {
                let i = choose|i: int| 0 <= i < front.len() && front[i] == opinions(front)[j];
                assert(rows[i] == held[j]);
            } else {
                assert(rows[rows.len() - 1] == held[j]);
            }
        }
        assert forall|j: int| 0 <= j < rows.len() && has_opinion(rows[j]) implies held.contains(
            #[trigger] rows[j],
        ) by {
            if j < front.len() {
                assert(front[j] == rows[j]);
                let i = choose|i: int|
                    0 <= i < opinions(front).len() && opinions(front)[i] == front[j];
                assert(held[i] == rows[j]);
            } else {
                assert(held[held.len() - 1] == rows[j]);
            }
        }
    }
}

/// With one and the same positive weight for every row, the weighted mean
/// is the plain mean of the rows.
pub proof fn lemma_uniform_weighted_mean(
    rows: Seq<Seq<nat>>,
    weights: Seq<nat>,
    weight: nat,
    width: nat,
)
    requires
        rows.len() == weights.len(),
        rows.len() > 0,
        weight > 0,
        forall|j: int| 0 <= j < weights.len() ==> weights[j] == weight,
    ensures
        weighted_mean(rows, weights, width) == rounded_shares(
            column_sums(rows, width),
            rows.len(),
        ),
{
    let n = rows.len();
    lemma_uniform_total(weights, weight, n as int);
    assert(weights.take(n as int) =~= weights);
    assert(total(weights) == n * weight);
    assert(n * weight > 0 && n * weight == weight * n) by (nonlinear_arith)
        requires
            n > 0,
            weight > 0,
    ;
    assert forall|k: int| 0 <= k < width implies weighted_column_sum(rows, weights, k, n)
        == weight * column_sum(rows, k) by {
        lemma_uniform_weighted_column_sum(rows, weights, weight, k, n as int);
        assert(rows.take(n as int) =~= rows);
    }
    assert(weighted_column_sums(rows, weights, width) =~= scaled(column_sums(rows, width), weight));
    lemma_scaled_shares(column_sums(rows, width), n, weight);
}

proof fn lemma_uniform_total(weights: Seq<nat>, weight: nat, n: int)
    requires
        0 <= n <= weights.len(),
        forall|j: int| 0 <= j < weights.len() ==> weights[j] == weight,
    ensures
        total(weights.take(n)) == n * weight,
    decreases n,
{
    if n > 0 {
        lemma_uniform_total(weights, weight, n - 1);
        lemma_total_take_next(weights, n - 1);
        assert((n - 1) * weight + weight == n * weight) by (nonlinear_arith);
    } else {
        assert(0 * weight == 0) by (nonlinear_arith);
    }
}

proof fn lemma_uniform_weighted_column_sum(
    rows: Seq<Seq<nat>>,
    weights: Seq<nat>,
    weight: nat,
    k: int,
    n: int,
)
    requires
        0 <= n <= rows.len(),
        n <= weights.len(),
        forall|j: int| 0 <= j < weights.len() ==> weights[j] == weight,
    ensures
        weighted_column_sum(rows, weights, k, n as nat) == weight * column_sum(rows.take(n), k),
    decreases n,
{
    if n > 0 {
        lemma_uniform_weighted_column_sum(rows, weights, weight, k, n - 1);
        assert(rows.take(n).drop_last() =~= rows.take(n - 1));
        let before = column_sum(rows.take(n - 1), k);
        let here = rows[n - 1][k];
        assert(weight * before + here * weight == weight * (before + here)) by (nonlinear_arith);
    } else {
        assert(weight * 0 == 0) by (nonlinear_arith);
    }
}

/// The sum of the first `width` columns of the rows.
pub open spec fn columns_total(rows: Seq<Seq<nat>>, width: nat) -> nat
    decreases width,
{
    if width == 0 {
        0
    } else {
        columns_total(rows, (width - 1) as nat) + column_sum(rows, width - 1)
    }
}

proof fn lemma_columns_total_push(rows: Seq<Seq<nat>>, row: Seq<nat>, width: nat)
    requires
        width <= row.len(),
    ensures
        columns_total(rows.push(row), width) == columns_total(rows, width) + total(
            row.take(width as int),
        ),
    decreases width,
{
    if width > 0 {
        lemma_columns_total_push(rows, row, (width - 1) as nat);
        lemma_column_sum_push(rows, row, width - 1);
        lemma_total_take_next(row, width - 1);
    } else {
        assert(row.take(0) =~= Seq::<nat>::empty());
    }
}

/// Rows that each add up to `sum` add up to `sum` times their number,
/// column by column.
pub proof fn lemma_columns_total_of_equal_rows(rows: Seq<Seq<nat>>, width: nat, sum: nat)
    requires
        forall|j: int| 0 <= j < rows.len() ==> (#[trigger] rows[j]).len() == width,
        forall|j: int| 0 <= j < rows.len() ==> total(#[trigger] rows[j]) == sum,
    ensures
        columns_total(rows, width) == rows.len() * sum,
    decreases rows.len(),
{
    if rows.len() == 0 {
        lemma_columns_total_empty(rows, width);
        assert(0 * sum == 0) by (nonlinear_arith);
    } else {
        let front = rows.drop_last();
        let last = rows.last();
        assert forall|j: int| 0 <= j < front.len() implies (#[trigger] front[j]).len() == width
            && total(front[j]) == sum by {
            assert(front[j] == rows[j]);
        }
        lemma_columns_total_of_equal_rows(front, width, sum);
        assert(front.push(last) =~= rows);
        lemma_columns_total_push(front, last, width);
        assert(last.take(width as int) =~= last);
        assert(front.len() * sum + sum == rows.len() * sum) by (nonlinear_arith)
            requires
                front.len() + 1 == rows.len(),
        ;
    }
}

proof fn lemma_columns_total_empty(rows: Seq<Seq<nat>>, width: nat)
    requires
        rows.len() == 0,
    ensures
        columns_total(rows, width) == 0,
    decreases width,
{
    if width > 0 {
        lemma_columns_total_empty(rows, (width - 1) as nat);
    }
}

/// The sums of the columns add up to the sum of the columns.
pub proof fn lemma_column_sums_total(rows: Seq<Seq<nat>>, width: nat)
    ensures
        total(column_sums(rows, width)) == columns_total(rows, width),
    decreases width,
{
    if width > 0 {
        lemma_column_sums_total(rows, (width - 1) as nat);
        assert(column_sums(rows, width).drop_last() =~= column_sums(rows, (width - 1) as nat));
    }
}

/// What the mean of distributions adds up to. Where every opinion among the
/// rows adds up to `sum`, so does their mean: nothing is lost to the
/// rounding. Without any opinion it adds up to zero.
pub proof fn lemma_mean_distribution_total(rows: Seq<Seq<nat>>, width: nat, sum: nat)
    requires
        forall|j: int| 0 <= j < rows.len() ==> (#[trigger] rows[j]).len() == width,
        forall|j: int|
            0 <= j < rows.len() && has_opinion(rows[j]) ==> total(#[trigger] rows[j]) == sum,
    ensures
        mean_distribution(rows, width).len() == width,
        opinions(rows).len() > 0 ==> total(mean_distribution(rows, width)) == sum,
        opinions(rows).len() == 0 ==> total(mean_distribution(rows, width)) == 0,
{
    let held = opinions(rows);
    let mean = mean_distribution(rows, width);
    lemma_opinions_hold(rows);
    if held.len() == 0 {
        assert(!has_opinion(mean));
        lemma_total_without_opinion(mean);
    } else {
        let n = held.len();
        assert forall|j: int| 0 <= j < held.len() implies (#[trigger] held[j]).len() == width
            && total(held[j]) == sum by {
            assert(rows.contains(held[j]));
            let i = choose|i: int| 0 <= i < rows.len() && rows[i] == held[j];
            assert(has_opinion(rows[i]));
        }
        lemma_columns_total_of_equal_rows(held, width, sum);
        lemma_column_sums_total(held, width);
        lemma_rounded_shares_total(column_sums(held, width), n);
        lemma_div_multiples_vanish(sum as int, n as int);
    }
}

/// Each component of the mean is within one unit of the exact mean of that
/// component over the rows that hold an opinion, and it is the exact mean
/// where that is a whole number.
pub proof fn lemma_mean_distribution_is_near(rows: Seq<Seq<nat>>, width: nat, k: int)
    requires
        0 <= k < width,
        opinions(rows).len() > 0,
    ensures
        column_sum(opinions(rows), k) < opinions(rows).len() * mean_distribution(rows, width)[k]
            + opinions(rows).len(),
        opinions(rows).len() * mean_distribution(rows, width)[k] < column_sum(opinions(rows), k)
            + opinions(rows).len(),
        column_sum(opinions(rows), k) % opinions(rows).len() == 0 ==> mean_distribution(
            rows,
            width,
        )[k] == column_sum(opinions(rows), k) / opinions(rows).len(),
{
    let held = opinions(rows);
    lemma_share_is_near(column_sums(held, width), held.len(), k);
}

proof fn lemma_total_sum(a: Seq<nat>, b: Seq<nat>, c: Seq<nat>)
    requires
        a.len() == b.len(),
        a.len() == c.len(),
        forall|k: int| 0 <= k < c.len() ==> c[k] == a[k] + b[k],
    ensures
        total(c) == total(a) + total(b),
    decreases c.len(),
{
    if c.len() > 0 {
        lemma_total_sum(a.drop_last(), b.drop_last(), c.drop_last());
    }
}

proof fn lemma_total_scaled(a: Seq<nat>, factor: nat)
    ensures
        total(scaled(a, factor)) == factor * total(a),
    decreases a.len(),
{
    if a.len() > 0 {
        lemma_total_scaled(a.drop_last(), factor);
        assert(scaled(a, factor).drop_last() =~= scaled(a.drop_last(), factor));
        let before = total(a.drop_last());
        let last = a.last();
        assert(factor * before + factor * last == factor * (before + last)) by (nonlinear_arith);
    } else {
        assert(factor * 0 == 0) by (nonlinear_arith);
    }
}

proof fn lemma_weighted_columns(rows: Seq<Seq<nat>>, weights: Seq<nat>, width: nat, n: nat)
    requires
        n <= rows.len(),
        n <= weights.len(),
        forall|j: int| 0 <= j < n ==> (#[trigger] rows[j]).len() == width,
    ensures
        total(Seq::new(width, |k: int| weighted_column_sum(rows, weights, k, n)))
            == weighted_totals(rows, weights, n),
    decreases n,
{
    let now = Seq::new(width, |k: int| weighted_column_sum(rows, weights, k, n));
    if n == 0 {
        assert(!has_opinion(now));
        lemma_total_without_opinion(now);
    } else {
        let m = (n - 1) as nat;
        lemma_weighted_columns(rows, weights, width, m);
        let before = Seq::new(width, |k: int| weighted_column_sum(rows, weights, k, m));
        let row = rows[n - 1];
        let weight = weights[n - 1];
        let added = scaled(row, weight);
        assert forall|k: int| 0 <= k < width implies now[k] == before[k] + added[k] by {
            assert(row[k] * weight == weight * row[k]) by (nonlinear_arith);
        }
        lemma_total_sum(before, added, now);
        lemma_total_scaled(row, weight);
    }
}

proof fn lemma_weighted_totals_of_equal_rows(
    rows: Seq<Seq<nat>>,
    weights: Seq<nat>,
    n: nat,
    sum: nat,
)
    requires
        n <= rows.len(),
        n <= weights.len(),
        forall|j: int| 0 <= j < n ==> total(#[trigger] rows[j]) == sum,
    ensures
        weighted_totals(rows, weights, n) == total(weights.take(n as int)) * sum,
    decreases n,
{
    if n == 0 {
        assert(0 * sum == 0) by (nonlinear_arith);
    } else {
        lemma_weighted_totals_of_equal_rows(rows, weights, (n - 1) as nat, sum);
        lemma_total_take_next(weights, n - 1);
        let before = total(weights.take(n - 1));
        let weight = weights[n - 1];
        assert(before * sum + weight * sum == (before + weight) * sum) by (nonlinear_arith);
    }
}

/// What a weighted mean adds up to. Where every row has a weight, the
/// weights do not add up to zero and every row adds up to `sum`, so does
/// the weighted mean: nothing is lost to the rounding.
pub proof fn lemma_weighted_mean_total(
    rows: Seq<Seq<nat>>,
    weights: Seq<nat>,
    width: nat,
    sum: nat,
)
    requires
        rows.len() == weights.len(),
        total(weights) > 0,
        forall|j: int| 0 <= j < rows.len() ==> (#[trigger] rows[j]).len() == width,
        forall|j: int| 0 <= j < rows.len() ==> total(#[trigger] rows[j]) == sum,
    ensures
        weighted_mean(rows, weights, width).len() == width,
        total(weighted_mean(rows, weights, width)) == sum,
{
    let n = rows.len();
    let all = total(weights);
    lemma_weighted_columns(rows, weights, width, n);
    lemma_weighted_totals_of_equal_rows(rows, weights, n, sum);
    assert(weights.take(n as int) =~= weights);
    assert(weighted_column_sums(rows, weights, width) =~= Seq::new(
        width,
        |k: int| weighted_column_sum(rows, weights, k, n),
    ));
    lemma_rounded_shares_total(weighted_column_sums(rows, weights, width), all);
    lemma_div_multiples_vanish(sum as int, all as int);
    assert(all * sum == sum * all) by (nonlinear_arith);
}

/// Each component of a weighted mean is within one unit of the exact
/// weighted mean of that component, and it is the exact one where that is a
/// whole number.
pub proof fn lemma_weighted_mean_is_near(
    rows: Seq<Seq<nat>>,
    weights: Seq<nat>,
    width: nat,
    k: int,
)
    requires
        0 <= k < width,
        total(weights) > 0,
    ensures
        weighted_column_sums(rows, weights, width)[k] < total(weights) * weighted_mean(
            rows,
            weights,
            width,
        )[k] + total(weights),
        total(weights) * weighted_mean(rows, weights, width)[k] < weighted_column_sums(
            rows,
            weights,
            width,
        )[k] + total(weights),
        weighted_column_sums(rows, weights, width)[k] % total(weights) == 0 ==> weighted_mean(
            rows,
            weights,
            width,
        )[k] == weighted_column_sums(rows, weights, width)[k] / total(weights),
{
    lemma_share_is_near(weighted_column_sums(rows, weights, width), total(weights), k);
}

proof fn lemma_column_sum_bounds(rows: Seq<Seq<nat>>, k: int, low: nat, high: nat)
    requires
        forall|j: int| 0 <= j < rows.len() ==> low <= (#[trigger] rows[j])[k] <= high,
    ensures
        low * rows.len() <= column_sum(rows, k) <= high * rows.len(),
    decreases rows.len(),
{
    if rows.len() > 0 {
        let front = rows.drop_last();
        assert forall|j: int| 0 <= j < front.len() implies low <= (#[trigger] front[j])[k]
            <= high by {
            assert(front[j] == rows[j]);
        }
        lemma_column_sum_bounds(front, k, low, high);
        let n = front.len();
        assert(low * n + low == low * (n + 1) && high * n + high == high * (n + 1))
            by (nonlinear_arith);
        assert(low <= rows[rows.len() - 1][k] <= high);
    } else {
        assert(low * 0 == 0 && high * 0 == 0) by (nonlinear_arith);
    }
}

/// Each component of the mean lies between the least and the greatest value
/// of that component among the rows that hold an opinion.
pub proof fn lemma_mean_distribution_in_range(
    rows: Seq<Seq<nat>>,
    width: nat,
    k: int,
    low: nat,
    high: nat,
)
    requires
        0 <= k < width,
        opinions(rows).len() > 0,
        forall|j: int|
            0 <= j < rows.len() && has_opinion(rows[j]) ==> low <= (#[trigger] rows[j])[k] <= high,
    ensures
        low <= mean_distribution(rows, width)[k] <= high,
{
    let held = opinions(rows);
    lemma_opinions_hold(rows);
    assert forall|j: int| 0 <= j < held.len() implies low <= (#[trigger] held[j])[k] <= high by {
        assert(rows.contains(held[j]));
        let i = choose|i: int| 0 <= i < rows.len() && rows[i] == held[j];
        assert(has_opinion(rows[i]));
    }
    lemma_column_sum_bounds(held, k, low, high);
    lemma_share_in_range(column_sums(held, width), held.len(), k, low, high);
}

proof fn lemma_weighted_column_bounds(
    rows: Seq<Seq<nat>>,
    weights: Seq<nat>,
    k: int,
    n: nat,
    low: nat,
    high: nat,
)
    requires
        n <= rows.len(),
        n <= weights.len(),
        forall|j: int| 0 <= j < n ==> low <= (#[trigger] rows[j])[k] <= high,
    ensures
        low * total(weights.take(n as int)) <= weighted_column_sum(rows, weights, k, n) <= high
            * total(weights.take(n as int)),
    decreases n,
{
    if n > 0 {
        lemma_weighted_column_bounds(rows, weights, k, (n - 1) as nat, low, high);
        lemma_total_take_next(weights, n - 1);
        let before = total(weights.take(n - 1));
        let weight = weights[n - 1];
        let value = rows[n - 1][k];
        assert(low <= value <= high);
        assert(low * before + low * weight == low * (before + weight) && high * before + high
            * weight == high * (before + weight)) by (nonlinear_arith);
        assert(low * weight <= value * weight <= high * weight) by (nonlinear_arith)
            requires
                low <= value <= high,
                weight >= 0,
        ;
    } else {
        assert(low * 0 == 0 && high * 0 == 0) by (nonlinear_arith);
    }
}

/// Each component of a weighted mean lies between the least and the
/// greatest value of that component among the rows, where every row has a
/// weight and the weights do not add up to zero.
pub proof fn lemma_weighted_mean_in_range(
    rows: Seq<Seq<nat>>,
    weights: Seq<nat>,
    width: nat,
    k: int,
    low: nat,
    high: nat,
)
    requires
        0 <= k < width,
        rows.len() == weights.len(),
        total(weights) > 0,
        forall|j: int| 0 <= j < rows.len() ==> low <= (#[trigger] rows[j])[k] <= high,
    ensures
        low <= weighted_mean(rows, weights, width)[k] <= high,
{
    let n = rows.len();
    lemma_weighted_column_bounds(rows, weights, k, n, low, high);
    assert(weights.take(n as int) =~= weights);
    lemma_share_in_range(weighted_column_sums(rows, weights, width), total(weights), k, low, high);
}

/// The total of three components is their sum.
pub proof fn lemma_total_of_three(d: Seq<nat>)
    requires
        d.len() == 3,
    ensures
        total(d) == d[0] + d[1] + d[2],
{
    reveal_with_fuel(total, 4);
    assert(d.drop_last().len() == 2);
    assert(d.drop_last().drop_last().len() == 1);
}

/// The total of seven components is their sum.
pub proof fn lemma_total_of_seven(d: Seq<nat>)
    requires
        d.len() == 7,
    ensures
        total(d) == d[0] + d[1] + d[2] + d[3] + d[4] + d[5] + d[6],
{
    let d6 = d.drop_last();
    let d5 = d6.drop_last();
    let d4 = d5.drop_last();
    lemma_total_of_three(d4.drop_last());
    assert(total(d4) == total(d4.drop_last()) + d4.last());
    assert(total(d5) == total(d4) + d5.last());
    assert(total(d6) == total(d5) + d6.last());
}

/// A distribution without an opinion adds up to zero.
pub proof fn lemma_total_without_opinion(d: Seq<nat>)
    requires
        !has_opinion(d),
    ensures
        total(d) == 0,
    decreases d.len(),
{
    if d.len() > 0 {
        assert(!has_opinion(d.drop_last())) by {
            if has_opinion(d.drop_last()) {
                let k = choose|k: int| 0 <= k < d.drop_last().len() && d.drop_last()[k] > 0;
                assert(d[k] > 0);
            }
        }
        lemma_total_without_opinion(d.drop_last());
        assert(d[d.len() - 1] == 0);
    }
}

/// A distribution that adds up to zero holds no opinion.
pub proof fn lemma_total_zero_is_no_opinion(d: Seq<nat>)
    requires
        total(d) == 0,
    ensures
        !has_opinion(d),
    decreases d.len(),
{
    if d.len() > 0 {
        lemma_total_zero_is_no_opinion(d.drop_last());
        if has_opinion(d) {
            let k = choose|k: int| 0 <= k < d.len() && d[k] > 0;
            if k < d.len() - 1 {
                assert(d.drop_last()[k] > 0);
            }
        }
    }
}

} // verus!

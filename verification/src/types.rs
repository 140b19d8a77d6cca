//! The closed vocabularies of the data model: who produced a signal, the
//! gender and age categories, the confidence tiers, and the record that
//! describes an organization.

use vstd::prelude::*;
use crate::probability::{
    as_nats, has_opinion, lemma_total_of_seven, lemma_total_take_le, lemma_total_take_next,
    lemma_weighted_mean_is_near, lemma_weighted_mean_total,
    no_opinion, total, weighted_column_sum, weighted_column_sums, weighted_mean, weighted_rows,
    well_formed, MEDIUM_THRESHOLD, ONE, STRONG_THRESHOLD,
};
use crate::shares::{share_out, wide_nats};

verus! {

/// The producer that a signal came from. A fused signal does not claim a
/// single producer and carries [`SignalSource::Local`].
#[derive(Debug, Clone, Copy, PartialEq, Eq, Structural)]
pub enum SignalSource {
    Local,
    Vision,
    Onomastic,
    Domain,
}

#[derive(Debug, Clone, Copy, PartialEq, Eq, Structural)]
pub enum Gender {
    Male,
    Female,
    Undetermined,
}

/// The age distribution that is certain of the bracket at position `k`.
pub open spec fn one_hot(k: int) -> Seq<nat> {
    Seq::new(7, |i: int| if i == k { ONE as nat } else { 0nat })
}

/// A distribution that is certain of a bracket holds an opinion and adds up
/// to one.
pub proof fn lemma_one_hot(k: int)
    requires
        0 <= k < 7,
    ensures
        one_hot(k).len() == 7,
        has_opinion(one_hot(k)),
        total(one_hot(k)) == ONE,
        well_formed(one_hot(k)),
{
    let d = one_hot(k);
    assert(d[k] > 0);
    reveal_with_fuel(total, 8);
    assert(d.drop_last().len() == 6);
    assert(d.drop_last().drop_last().len() == 5);
    assert(d.drop_last().drop_last().drop_last().len() == 4);
    assert(d.drop_last().drop_last().drop_last().drop_last().len() == 3);
    assert(d.drop_last().drop_last().drop_last().drop_last().drop_last().len() == 2);
    assert(d.drop_last().drop_last().drop_last().drop_last().drop_last().drop_last().len() == 1);
}

/// The seven age brackets, youngest first.
#[derive(Debug, Clone, Copy, PartialEq, Eq, Structural)]
pub enum AgeGroup {
    Under18,
    Age18_24,
    Age25_34,
    Age35_44,
    Age45_54,
    Age55_64,
    Age65Plus,
}

impl AgeGroup {
    /// The bracket of an age in years. An age above every bracket, and a
    /// negative one too, falls into the last bracket.
    pub open spec fn of_age(age: int) -> AgeGroup {
        if 0 <= age <= 17 {
            AgeGroup::Under18
        } else if 18 <= age <= 24 {
            AgeGroup::Age18_24
        } else if 25 <= age <= 34 {
            AgeGroup::Age25_34
        } else if 35 <= age <= 44 {
            AgeGroup::Age35_44
        } else if 45 <= age <= 54 {
            AgeGroup::Age45_54
        } else if 55 <= age <= 64 {
            AgeGroup::Age55_64
        } else {
            AgeGroup::Age65Plus
        }
    }

    /// The position of the bracket in an age distribution.
    pub open spec fn position(self) -> int {
        match self {
            AgeGroup::Under18 => 0,
            AgeGroup::Age18_24 => 1,
            AgeGroup::Age25_34 => 2,
            AgeGroup::Age35_44 => 3,
            AgeGroup::Age45_54 => 4,
            AgeGroup::Age55_64 => 5,
            AgeGroup::Age65Plus => 6,
        }
    }

    /// The bracket at a position of an age distribution.
    pub open spec fn at_position(k: int) -> AgeGroup {
        if k == 0 {
            AgeGroup::Under18
        } else if k == 1 {
            AgeGroup::Age18_24
        } else if k == 2 {
            AgeGroup::Age25_34
        } else if k == 3 {
            AgeGroup::Age35_44
        } else if k == 4 {
            AgeGroup::Age45_54
        } else if k == 5 {
            AgeGroup::Age55_64
        } else {
            AgeGroup::Age65Plus
        }
    }

    pub fn from_age(age: i32) -> (group: AgeGroup)
        ensures
            group == AgeGroup::of_age(age as int),
    {
        if age < 0 {
            AgeGroup::Age65Plus
        } else if age <= 17 {
            AgeGroup::Under18
        } else if age <= 24 {
            AgeGroup::Age18_24
        } else if age <= 34 {
            AgeGroup::Age25_34
        } else if age <= 44 {
            AgeGroup::Age35_44
        } else if age <= 54 {
            AgeGroup::Age45_54
        } else if age <= 64 {
            AgeGroup::Age55_64
        } else {
            AgeGroup::Age65Plus
        }
    }

    /// The position of the bracket in an age distribution.
    pub fn index(&self) -> (k: usize)
        ensures
            k == self.position(),
            k < 7,
    {
        match self {
            AgeGroup::Under18 => 0,
            AgeGroup::Age18_24 => 1,
            AgeGroup::Age25_34 => 2,
            AgeGroup::Age35_44 => 3,
            AgeGroup::Age45_54 => 4,
            AgeGroup::Age55_64 => 5,
            AgeGroup::Age65Plus => 6,
        }
    }

    /// The bracket at a position of an age distribution; the last bracket
    /// for a position past the end.
    pub fn from_index(k: usize) -> (group: AgeGroup)
        ensures
            group == AgeGroup::at_position(k as int),
            k < 7 ==> group.position() == k,
    {
        if k == 0 {
            AgeGroup::Under18
        } else if k == 1 {
            AgeGroup::Age18_24
        } else if k == 2 {
            AgeGroup::Age25_34
        } else if k == 3 {
            AgeGroup::Age35_44
        } else if k == 4 {
            AgeGroup::Age45_54
        } else if k == 5 {
            AgeGroup::Age55_64
        } else {
            AgeGroup::Age65Plus
        }
    }

    /// The distribution that is certain of this bracket: one at its
    /// position, zero everywhere else.
    pub fn to_one_hot(&self) -> (probs: [u32; 7])
        ensures
            as_nats(probs@) == one_hot(self.position()),
    {
        let mut probs: [u32; 7] = [0u32; 7];
        probs[self.index()] = ONE;
        proof {
            assert(as_nats(probs@) =~= one_hot(self.position()));
        }
        probs
    }

    /// Blends age distributions into their weighted mean. Distribution `j`
    /// counts `weights[j]` times; one without a weight does not count. The
    /// sum of each component is divided by the total of all weights, in
    /// whole shares: each component is within one billionth of the exact
    /// weighted mean, and nothing of the total is lost. So the blend of
    /// distributions that each add up to one adds up to one, where each has
    /// a weight and the weights do not add up to zero. Weights that add up
    /// to zero give no opinion.
    pub fn blend(distributions: &[[u32; 7]], weights: &[u32]) -> (mean: [u32; 7])
        ensures
            as_nats(mean@) == weighted_mean(
                distribution_rows(distributions@),
                as_nats(weights@),
                7,
            ),
            distributions@.len() == weights@.len() && total(as_nats(weights@)) > 0 && (forall|
                j: int,
            |
                0 <= j < distributions@.len() ==> total(
                    #[trigger] distribution_rows(distributions@)[j],
                ) == ONE) ==> total(as_nats(mean@)) == ONE && mean@[0] + mean@[1] + mean@[2]
                + mean@[3] + mean@[4] + mean@[5] + mean@[6] == ONE,
            total(as_nats(weights@)) > 0 ==> forall|k: int|
                0 <= k < 7 ==> {
                    let sum = weighted_column_sums(
                        distribution_rows(distributions@),
                        as_nats(weights@),
                        7,
                    )[k];
                    let all = total(as_nats(weights@));
                    let share = #[trigger] mean@[k];
                    &&& sum < all * share + all
                    &&& all * share < sum + all
                },
    {
        let ghost rows = distribution_rows(distributions@);
        let ghost w = as_nats(weights@);
        let mut total_weight: u128 = 0;
        let mut j: usize = 0;
        while j < weights.len()
            invariant
                j <= weights.len(),
                w == as_nats(weights@),
                total_weight == total(w.take(j as int)),
                total_weight <= j * 0xFFFF_FFFF,
            decreases weights.len() - j,
        {
            proof {
                lemma_total_take_next(w, j as int);
            }
            total_weight = total_weight + weights[j] as u128;
            j += 1;
        }
        proof {
            assert(w.take(j as int) =~= w);
        }
        let mut mean: [u32; 7] = [0u32; 7];
        if total_weight == 0 {
            proof {
                assert(as_nats(mean@) =~= no_opinion(7));
            }
            return mean;
        }
        let n: usize = if distributions.len() <= weights.len() {
            distributions.len()
        } else {
            weights.len()
        };
        let mut sums: Vec<u128> = Vec::new();
        let mut k: usize = 0;
        while k < 7
            invariant
                k <= 7,
                rows == distribution_rows(distributions@),
                w == as_nats(weights@),
                n == weighted_rows(rows, w),
                total_weight == total(w),
                total_weight > 0,
                sums@.len() == k,
                forall|c: int|
                    0 <= c < k ==> #[trigger] sums@[c] == weighted_column_sum(
                        rows,
                        w,
                        c,
                        n as nat,
                    ),
                forall|c: int| 0 <= c < k ==> #[trigger] sums@[c] <= total_weight * 0xFFFF_FFFF,
            decreases 7 - k,
        {
            let mut acc: u128 = 0;
            let mut j: usize = 0;
            while j < n
                invariant
                    j <= n,
                    k < 7,
                    n <= weights.len(),
                    n <= distributions.len(),
                    rows == distribution_rows(distributions@),
                    w == as_nats(weights@),
                    acc == weighted_column_sum(rows, w, k as int, j as nat),
                    acc <= 0xFFFF_FFFF * total(w.take(j as int)),
                    total(w.take(j as int)) <= j * 0xFFFF_FFFF,
                decreases n - j,
            {
                let d: u32 = distributions[j][k];
                let x: u32 = weights[j];
                proof {
                    lemma_total_take_next(w, j as int);
                    assert(rows[j as int][k as int] == d as nat);
                    assert(w[j as int] == x as nat);
                    assert((d as nat) * (x as nat) <= 0xFFFF_FFFF * (x as nat)) by (nonlinear_arith)
                        requires
                            d <= 0xFFFF_FFFF,
                    ;
                }
                acc = acc + (d as u128) * (x as u128);
                j += 1;
            }
            proof {
                lemma_total_take_le(w, n as int);
            }
            sums.push(acc);
            k += 1;
        }
        proof {
            lemma_total_take_le(w, weights@.len() as int);
            assert(w.take(weights@.len() as int) =~= w);
            assert(wide_nats(sums@) =~= weighted_column_sums(rows, w, 7));
        }
        let shares = share_out(&sums, total_weight);
        let mut k: usize = 0;
        while k < 7
            invariant
                k <= 7,
                shares@.len() == 7,
                forall|c: int| 0 <= c < k ==> mean@[c] == shares@[c],
            decreases 7 - k,
        {
            mean[k] = shares[k];
            k += 1;
        }
        proof {
            assert(as_nats(mean@) =~= as_nats(shares@));
            assert forall|k: int| 0 <= k < 7 implies {
                let sum = weighted_column_sums(rows, w, 7)[k];
                let all = total(w);
                let share = #[trigger] mean@[k];
                &&& sum < all * share + all
                &&& all * share < sum + all
            } by {
                lemma_weighted_mean_is_near(rows, w, 7, k);
                assert(as_nats(mean@)[k] == mean@[k]);
            }
            if distributions@.len() == weights@.len() && (forall|j: int|
                0 <= j < distributions@.len() ==> total(
                    #[trigger] distribution_rows(distributions@)[j],
                ) == ONE) {
                lemma_weighted_mean_total(rows, w, 7, ONE as nat);
                lemma_total_of_seven(as_nats(mean@));
            }
        }
        mean
    }
}

/// The confidence tier that a client sees in place of a raw probability.
#[derive(Debug, Clone, Copy, PartialEq, Eq, Structural)]
pub enum Confidence {
    Strong,
    Medium,
    Low,
    /// The tier of probability zero: there is no estimate to be confident in.
    Absent,
}

impl Confidence {
    /// The tier of a probability given as a mathematical number of billionths.
    pub open spec fn of_probability(p: nat) -> Confidence {
        if p >= STRONG_THRESHOLD {
            Confidence::Strong
        } else if p >= MEDIUM_THRESHOLD {
            Confidence::Medium
        } else if p > 0 {
            Confidence::Low
        } else {
            Confidence::Absent
        }
    }

    /// Maps a probability to its tier: strong from 0.8, medium from 0.5, low
    /// for anything else above zero, and absent for zero.
    pub fn from_probability(p: u32) -> (tier: Confidence)
        ensures
            tier == Confidence::of_probability(p as nat),
    {
        if p >= STRONG_THRESHOLD {
            Confidence::Strong
        } else if p >= MEDIUM_THRESHOLD {
            Confidence::Medium
        } else if p > 0 {
            Confidence::Low
        } else {
            Confidence::Absent
        }
    }
}

/// Age distributions as rows of mathematical numbers.
pub open spec fn distribution_rows(distributions: Seq<[u32; 7]>) -> Seq<Seq<nat>> {
    Seq::new(distributions.len(), |j: int| as_nats(distributions[j]@))
}

/// What is known of the organization behind an email domain.
#[derive(Debug, Clone, PartialEq, Eq)]
pub struct OrganizationIntelligence {
    pub domain: String,
    pub name: Option<String>,
    pub category: Option<String>,
    pub employee_count: Option<String>,
    pub employee_count_source: Option<String>,
}

} // verus!

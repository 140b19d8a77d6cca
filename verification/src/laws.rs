//! What holds of every fused signal.

use vstd::prelude::*;
use crate::dto::{last_highest, likeliest_gender, resolved_age_group, resolved_gender};
use crate::fusion::{
    age_rows, blended, first_birth_year, first_organization, fused, gender_rows, max_latency,
    preferred_organization, strongest_ethnicity,
};
use crate::probability::{
    column_sum, column_sums, has_opinion, lemma_mean_distribution_is_near,
    lemma_mean_distribution_total, lemma_opinions_push,
    lemma_total_without_opinion, lemma_total_zero_is_no_opinion, mean_distribution, no_opinion,
    opinions, total, well_formed, ONE,
};
use crate::shares::lemma_exact_shares;
use crate::signal::{InferenceSignal, SignalView};
use crate::types::{AgeGroup, Confidence, SignalSource};
use crate::vision::parser::remainder;

verus! {

/// The mean of a single distribution is the distribution itself.
pub proof fn lemma_mean_of_one(row: Seq<nat>)
    ensures
        mean_distribution(seq![row], row.len()) == row,
{
    let rows = seq![row];
    lemma_opinions_push(Seq::<Seq<nat>>::empty(), row);
    assert(Seq::<Seq<nat>>::empty().push(row) =~= rows);
    reveal(Seq::filter);
    assert(opinions(Seq::<Seq<nat>>::empty()) =~= Seq::<Seq<nat>>::empty());
    if has_opinion(row) {
        let held = opinions(rows);
        assert(held =~= rows);
        let sums = column_sums(held, row.len());
        assert forall|k: int| 0 <= k < row.len() implies sums[k] == row[k] by {
            assert(held.drop_last() =~= Seq::<Seq<nat>>::empty());
            assert(column_sum(held.drop_last(), k) == 0);
        }
        assert forall|k: int| 0 <= k < sums.len() implies #[trigger] sums[k] % 1 == 0 by {}
        lemma_exact_shares(sums, 1);
        assert(mean_distribution(rows, row.len()) =~= row);
    } else {
        assert(no_opinion(row.len()) =~= row);
    }
}

/// However many signals there are, the fused gender and the fused age are
/// the means of the distributions that hold an opinion.
pub proof fn lemma_fused_distributions_are_means(signals: Seq<InferenceSignal>)
    ensures
        fused(signals).gender == mean_distribution(gender_rows(signals), 3),
        fused(signals).age == mean_distribution(age_rows(signals), 7),
{
    if signals.len() == 0 {
        reveal(Seq::filter);
        assert(gender_rows(signals) =~= Seq::<Seq<nat>>::empty());
        assert(age_rows(signals) =~= Seq::<Seq<nat>>::empty());
        assert(seq![0nat, 0nat, 0nat] =~= no_opinion(3));
        assert(seq![0nat, 0nat, 0nat, 0nat, 0nat, 0nat, 0nat] =~= no_opinion(7));
    } else if signals.len() == 1 {
        assert(gender_rows(signals) =~= seq![signals[0].gender()]);
        assert(age_rows(signals) =~= seq![signals[0].age()]);
        lemma_mean_of_one(signals[0].gender());
        lemma_mean_of_one(signals[0].age());
    }
}

proof fn lemma_opinions_skip_silent(rows: Seq<Seq<nat>>, silent: Seq<nat>, at: int)
    requires
        0 <= at <= rows.len(),
        !has_opinion(silent),
    ensures
        opinions(rows.insert(at, silent)) == opinions(rows),
{
    let front = rows.take(at);
    let back = rows.skip(at);
    assert(rows.insert(at, silent) =~= front.push(silent) + back);
    assert(rows =~= front + back);
    lemma_opinions_push(front, silent);
    Seq::filter_distributes_over_add(front.push(silent), back, |d: Seq<nat>| has_opinion(d));
    Seq::filter_distributes_over_add(front, back, |d: Seq<nat>| has_opinion(d));
}

/// A signal without an opinion on the gender is left out of the fused
/// gender, and is no vote for zero: with it, wherever it stands among the
/// others, the fused gender is what the others alone give.
pub proof fn lemma_silent_signal_leaves_gender(
    signals: Seq<InferenceSignal>,
    silent: InferenceSignal,
    at: int,
)
    requires
        0 <= at <= signals.len(),
        !silent.has_gender_signal(),
    ensures
        fused(signals.insert(at, silent)).gender == fused(signals).gender,
{
    let with = signals.insert(at, silent);
    lemma_fused_distributions_are_means(signals);
    lemma_fused_distributions_are_means(with);
    silent.lemma_opinions();
    assert(gender_rows(with) =~= gender_rows(signals).insert(at, silent.gender()));
    lemma_opinions_skip_silent(gender_rows(signals), silent.gender(), at);
}

/// A signal without an opinion on the age is left out of the fused age in
/// the same way.
pub proof fn lemma_silent_signal_leaves_age(
    signals: Seq<InferenceSignal>,
    silent: InferenceSignal,
    at: int,
)
    requires
        0 <= at <= signals.len(),
        !silent.has_age_signal(),
    ensures
        fused(signals.insert(at, silent)).age == fused(signals).age,
{
    let with = signals.insert(at, silent);
    lemma_fused_distributions_are_means(signals);
    lemma_fused_distributions_are_means(with);
    silent.lemma_opinions();
    assert(age_rows(with) =~= age_rows(signals).insert(at, silent.age()));
    lemma_opinions_skip_silent(age_rows(signals), silent.age(), at);
}

/// Fusing a single signal gives that signal, field for field.
pub proof fn lemma_fused_alone(signal: InferenceSignal)
    ensures
        fused(seq![signal]) == signal@,
{
}

/// Fusing no signal gives a signal without any opinion: both distributions
/// are zero throughout and every optional field is absent.
pub proof fn lemma_fused_nothing()
    ensures
        fused(Seq::<InferenceSignal>::empty()) == SignalView::neutral(SignalSource::Local),
        !has_opinion(fused(Seq::<InferenceSignal>::empty()).gender),
        !has_opinion(fused(Seq::<InferenceSignal>::empty()).age),
        fused(Seq::<InferenceSignal>::empty()).ethnicity is None,
        fused(Seq::<InferenceSignal>::empty()).birth_year is None,
        fused(Seq::<InferenceSignal>::empty()).organization is None,
        fused(Seq::<InferenceSignal>::empty()).tokens_used is None,
        fused(Seq::<InferenceSignal>::empty()).reasoning.len() == 0,
{
}

/// Whether any of the signals holds an opinion on the gender.
pub open spec fn any_gender_opinion(signals: Seq<InferenceSignal>) -> bool {
    exists|i: int| 0 <= i < signals.len() && signals[i].has_gender_signal()
}

/// Whether any of the signals holds an opinion on the age.
pub open spec fn any_age_opinion(signals: Seq<InferenceSignal>) -> bool {
    exists|i: int| 0 <= i < signals.len() && signals[i].has_age_signal()
}

proof fn lemma_any_opinion(rows: Seq<Seq<nat>>)
    ensures
        opinions(rows).len() > 0 <==> exists|i: int| 0 <= i < rows.len() && has_opinion(rows[i]),
{
    crate::probability::lemma_opinions_hold(rows);
    if opinions(rows).len() > 0 {
        assert(rows.contains(opinions(rows)[0]));
        let i = choose|i: int| 0 <= i < rows.len() && rows[i] == opinions(rows)[0];
        assert(has_opinion(rows[i]));
    }
    if exists|i: int| 0 <= i < rows.len() && has_opinion(rows[i]) {
        let i = choose|i: int| 0 <= i < rows.len() && has_opinion(rows[i]);
        assert(opinions(rows).contains(rows[i]));
    }
}

/// The mean gender and the mean age of well-formed signals add up to one
/// where a signal holds an opinion, and to zero where none does: the mean
/// is made of whole shares, so that nothing is lost to the rounding.
pub proof fn lemma_means_add_up(signals: Seq<InferenceSignal>)
    requires
        forall|i: int| 0 <= i < signals.len() ==> (#[trigger] signals[i]).well_formed(),
    ensures
        total(mean_distribution(gender_rows(signals), 3)) == if any_gender_opinion(signals) {
            ONE as nat
        } else {
            0nat
        },
        total(mean_distribution(age_rows(signals), 7)) == if any_age_opinion(signals) {
            ONE as nat
        } else {
            0nat
        },
        mean_distribution(gender_rows(signals), 3).len() == 3,
        mean_distribution(age_rows(signals), 7).len() == 7,
{
    let genders = gender_rows(signals);
    let ages = age_rows(signals);
    assert forall|j: int| 0 <= j < genders.len() implies (#[trigger] genders[j]).len() == 3 && (
    has_opinion(genders[j]) ==> total(genders[j]) == ONE) by {
        assert(signals[j].well_formed());
    }
    assert forall|j: int| 0 <= j < ages.len() implies (#[trigger] ages[j]).len() == 7 && (
    has_opinion(ages[j]) ==> total(ages[j]) == ONE) by {
        assert(signals[j].well_formed());
    }
    lemma_mean_distribution_total(genders, 3, ONE as nat);
    lemma_mean_distribution_total(ages, 7, ONE as nat);
    lemma_any_opinion(genders);
    lemma_any_opinion(ages);
    assert(any_gender_opinion(signals) <==> exists|i: int|
        0 <= i < genders.len() && has_opinion(genders[i])) by {
        if any_gender_opinion(signals) {
            let i = choose|i: int| 0 <= i < signals.len() && signals[i].has_gender_signal();
            signals[i].lemma_opinions();
            assert(has_opinion(genders[i]));
        }
        if exists|i: int| 0 <= i < genders.len() && has_opinion(genders[i]) {
            let i = choose|i: int| 0 <= i < genders.len() && has_opinion(genders[i]);
            signals[i].lemma_opinions();
            assert(signals[i].has_gender_signal());
        }
    }
    assert(any_age_opinion(signals) <==> exists|i: int|
        0 <= i < ages.len() && has_opinion(ages[i])) by {
        if any_age_opinion(signals) {
            let i = choose|i: int| 0 <= i < signals.len() && signals[i].has_age_signal();
            signals[i].lemma_opinions();
            assert(has_opinion(ages[i]));
        }
        if exists|i: int| 0 <= i < ages.len() && has_opinion(ages[i]) {
            let i = choose|i: int| 0 <= i < ages.len() && has_opinion(ages[i]);
            signals[i].lemma_opinions();
            assert(signals[i].has_age_signal());
        }
    }
}

/// The fused gender and the fused age of well-formed signals add up to one
/// where a signal holds an opinion, and to zero where none does.
pub proof fn lemma_fused_distributions_add_up(signals: Seq<InferenceSignal>)
    requires
        forall|i: int| 0 <= i < signals.len() ==> (#[trigger] signals[i]).well_formed(),
    ensures
        any_gender_opinion(signals) ==> total(fused(signals).gender) == ONE,
        !any_gender_opinion(signals) ==> total(fused(signals).gender) == 0,
        any_age_opinion(signals) ==> total(fused(signals).age) == ONE,
        !any_age_opinion(signals) ==> total(fused(signals).age) == 0,
        fused(signals).gender.len() == 3,
        fused(signals).age.len() == 7,
{
    lemma_fused_distributions_are_means(signals);
    lemma_means_add_up(signals);
}

/// The blend of well-formed signals is well formed, however many there
/// are.
pub proof fn lemma_blended_well_formed(signals: Seq<InferenceSignal>)
    requires
        forall|i: int| 0 <= i < signals.len() ==> (#[trigger] signals[i]).well_formed(),
    ensures
        blended(signals).well_formed(),
{
    let genders = gender_rows(signals);
    let ages = age_rows(signals);
    assert forall|j: int| 0 <= j < genders.len() implies (#[trigger] genders[j]).len() == 3 && (
    has_opinion(genders[j]) ==> total(genders[j]) == ONE) by {
        assert(signals[j].well_formed());
    }
    assert forall|j: int| 0 <= j < ages.len() implies (#[trigger] ages[j]).len() == 7 && (
    has_opinion(ages[j]) ==> total(ages[j]) == ONE) by {
        assert(signals[j].well_formed());
    }
    lemma_mean_distribution_total(genders, 3, ONE as nat);
    lemma_mean_distribution_total(ages, 7, ONE as nat);
    lemma_no_opinion_is_nothing(mean_distribution(genders, 3));
    lemma_no_opinion_is_nothing(mean_distribution(ages, 7));
    lemma_strongest_ethnicity(signals);
    match strongest_ethnicity(signals) {
        Some(best) => {
            assert(signals[best].well_formed());
        },
        None => {},
    }
}

/// Fusing well-formed signals gives a well-formed signal: what holds of the
/// signals of the producers holds of a fused signal too.
pub proof fn lemma_fused_well_formed(signals: Seq<InferenceSignal>)
    requires
        forall|i: int| 0 <= i < signals.len() ==> (#[trigger] signals[i]).well_formed(),
    ensures
        fused(signals).well_formed(),
{
    if signals.len() == 0 {
        let neutral = SignalView::neutral(SignalSource::Local);
        assert(!has_opinion(neutral.gender));
        assert(!has_opinion(neutral.age));
    } else if signals.len() == 1 {
        assert(signals[0].well_formed());
    } else {
        lemma_blended_well_formed(signals);
    }
}

/// The birth year that wins is that of the first signal that knows one, and
/// there is none only where no signal knows one.
pub proof fn lemma_first_birth_year(signals: Seq<InferenceSignal>)
    ensures
        first_birth_year(signals) is None <==> forall|i: int|
            0 <= i < signals.len() ==> (#[trigger] signals[i]).birth_year is None,
        first_birth_year(signals) is Some ==> exists|i: int|
            0 <= i < signals.len() && (#[trigger] signals[i]).birth_year == first_birth_year(
                signals,
            ) && forall|j: int| 0 <= j < i ==> (#[trigger] signals[j]).birth_year is None,
    decreases signals.len(),
{
    if signals.len() > 0 {
        let front = signals.drop_last();
        lemma_first_birth_year(front);
        assert forall|i: int| 0 <= i < front.len() implies front[i] == signals[i] by {}
        if first_birth_year(front) is Some {
            let i = choose|i: int|
                0 <= i < front.len() && (#[trigger] front[i]).birth_year == first_birth_year(front)
                    && forall|j: int| 0 <= j < i ==> (#[trigger] front[j]).birth_year is None;
            assert(signals[i].birth_year == first_birth_year(signals));
            assert forall|j: int| 0 <= j < i implies (#[trigger] signals[j]).birth_year is None by {
                assert(front[j].birth_year is None);
            }
        } else {
            assert forall|j: int| 0 <= j < signals.len() - 1 implies (
            #[trigger] signals[j]).birth_year is None by {
                assert(front[j].birth_year is None);
            }
            if signals.last().birth_year is Some {
                assert(signals[signals.len() - 1].birth_year == first_birth_year(signals));
            }
        }
    }
}

/// Whether a signal has an organization; with `named_only`, one with a name.
pub open spec fn offers_organization(signal: InferenceSignal, named_only: bool) -> bool {
    match signal.organization {
        Some(org) => !named_only || org.name is Some,
        None => false,
    }
}

/// The first organization, or the first with a name, is that of the first
/// signal that offers one, and there is none only where no signal does.
pub proof fn lemma_first_organization(signals: Seq<InferenceSignal>, named_only: bool)
    ensures
        first_organization(signals, named_only) is None <==> forall|i: int|
            0 <= i < signals.len() ==> !offers_organization(#[trigger] signals[i], named_only),
        first_organization(signals, named_only) is Some ==> exists|i: int|
            0 <= i < signals.len() && offers_organization(#[trigger] signals[i], named_only)
                && signals[i].organization == first_organization(signals, named_only)
                && forall|j: int|
                0 <= j < i ==> !offers_organization(#[trigger] signals[j], named_only),
    decreases signals.len(),
{
    if signals.len() > 0 {
        let front = signals.drop_last();
        lemma_first_organization(front, named_only);
        assert forall|i: int| 0 <= i < front.len() implies front[i] == signals[i] by {}
        if first_organization(front, named_only) is Some {
            let i = choose|i: int|
                0 <= i < front.len() && offers_organization(#[trigger] front[i], named_only)
                    && front[i].organization == first_organization(front, named_only)
                    && forall|j: int|
                    0 <= j < i ==> !offers_organization(#[trigger] front[j], named_only);
            assert(offers_organization(signals[i], named_only));
            assert forall|j: int| 0 <= j < i implies !offers_organization(
                #[trigger] signals[j],
                named_only,
            ) by {
                assert(!offers_organization(front[j], named_only));
            }
        } else {
            assert forall|j: int| 0 <= j < signals.len() - 1 implies !offers_organization(
                #[trigger] signals[j],
                named_only,
            ) by {
                assert(!offers_organization(front[j], named_only));
            }
            if offers_organization(signals.last(), named_only) {
                assert(offers_organization(signals[signals.len() - 1], named_only));
            }
        }
    }
}

/// An organization with a name outranks one without: the preferred
/// organization has a name wherever some signal offers one with a name, and
/// there is none only where no signal has an organization.
pub proof fn lemma_preferred_organization(signals: Seq<InferenceSignal>)
    ensures
        preferred_organization(signals) is None <==> forall|i: int|
            0 <= i < signals.len() ==> (#[trigger] signals[i]).organization is None,
        (exists|i: int| 0 <= i < signals.len() && offers_organization(#[trigger] signals[i], true))
            ==> preferred_organization(signals) is Some && preferred_organization(
            signals,
        )->0.name is Some,
{
    lemma_first_organization(signals, true);
    lemma_first_organization(signals, false);
    if preferred_organization(signals) is None {
        assert forall|i: int| 0 <= i < signals.len() implies (
        #[trigger] signals[i]).organization is None by {
            assert(!offers_organization(signals[i], false));
        }
    }
    if forall|i: int| 0 <= i < signals.len() ==> (#[trigger] signals[i]).organization is None {
        assert forall|i: int| 0 <= i < signals.len() implies !offers_organization(
            #[trigger] signals[i],
            false,
        ) && !offers_organization(signals[i], true) by {
            assert(signals[i].organization is None);
        }
    }
}

/// The ethnicity that wins is that of a signal with a label that no other
/// labelled signal is more confident than, and that every labelled signal
/// before it is less confident than. There is no winner only where no
/// signal has a label.
pub proof fn lemma_strongest_ethnicity(signals: Seq<InferenceSignal>)
    ensures
        strongest_ethnicity(signals) is None <==> forall|i: int|
            0 <= i < signals.len() ==> (#[trigger] signals[i]).ethnicity is None,
        strongest_ethnicity(signals) matches Some(best) ==> {
            &&& 0 <= best < signals.len()
            &&& signals[best].ethnicity is Some
            &&& forall|j: int|
                0 <= j < signals.len() && (#[trigger] signals[j]).ethnicity is Some
                    ==> signals[j].ethnicity_confidence <= signals[best].ethnicity_confidence
            &&& forall|j: int|
                0 <= j < best && (#[trigger] signals[j]).ethnicity is Some
                    ==> signals[j].ethnicity_confidence < signals[best].ethnicity_confidence
        },
    decreases signals.len(),
{
    if signals.len() > 0 {
        let front = signals.drop_last();
        lemma_strongest_ethnicity(front);
        assert forall|i: int| 0 <= i < front.len() implies front[i] == signals[i] by {}
        if strongest_ethnicity(front) is None {
            assert forall|j: int| 0 <= j < signals.len() - 1 implies (
            #[trigger] signals[j]).ethnicity is None by {
                assert(front[j].ethnicity is None);
            }
        }
        match strongest_ethnicity(signals) {
            Some(best) => {
                assert forall|j: int|
                    0 <= j < signals.len() && (#[trigger] signals[j]).ethnicity
                        is Some implies signals[j].ethnicity_confidence
                    <= signals[best].ethnicity_confidence by {
                    if j < front.len() {
                        assert(front[j].ethnicity is Some);
                    }
                }
                assert forall|j: int|
                    0 <= j < best && (#[trigger] signals[j]).ethnicity
                        is Some implies signals[j].ethnicity_confidence
                    < signals[best].ethnicity_confidence by {
                    assert(front[j].ethnicity is Some);
                }
            },
            None => {},
        }
    }
}

/// Each component of the fused gender and of the fused age is within one
/// billionth of the exact mean of that component over the signals that hold
/// an opinion, and it is the exact mean where that is a whole number of
/// billionths.
pub proof fn lemma_fused_components_are_near(signals: Seq<InferenceSignal>)
    ensures
        forall|k: int|
            0 <= k < 3 && opinions(gender_rows(signals)).len() > 0 ==> {
                let held = opinions(gender_rows(signals));
                let mean = #[trigger] fused(signals).gender[k];
                &&& column_sum(held, k) < held.len() * mean + held.len()
                &&& held.len() * mean < column_sum(held, k) + held.len()
                &&& column_sum(held, k) % held.len() == 0 ==> mean == column_sum(held, k)
                    / held.len()
            },
        forall|k: int|
            0 <= k < 7 && opinions(age_rows(signals)).len() > 0 ==> {
                let held = opinions(age_rows(signals));
                let mean = #[trigger] fused(signals).age[k];
                &&& column_sum(held, k) < held.len() * mean + held.len()
                &&& held.len() * mean < column_sum(held, k) + held.len()
                &&& column_sum(held, k) % held.len() == 0 ==> mean == column_sum(held, k)
                    / held.len()
            },
{
    lemma_fused_distributions_are_means(signals);
    assert forall|k: int| 0 <= k < 3 && opinions(gender_rows(signals)).len() > 0 implies {
        let held = opinions(gender_rows(signals));
        let mean = #[trigger] fused(signals).gender[k];
        &&& column_sum(held, k) < held.len() * mean + held.len()
        &&& held.len() * mean < column_sum(held, k) + held.len()
        &&& column_sum(held, k) % held.len() == 0 ==> mean == column_sum(held, k) / held.len()
    } by {
        lemma_mean_distribution_is_near(gender_rows(signals), 3, k);
    }
    assert forall|k: int| 0 <= k < 7 && opinions(age_rows(signals)).len() > 0 implies {
        let held = opinions(age_rows(signals));
        let mean = #[trigger] fused(signals).age[k];
        &&& column_sum(held, k) < held.len() * mean + held.len()
        &&& held.len() * mean < column_sum(held, k) + held.len()
        &&& column_sum(held, k) % held.len() == 0 ==> mean == column_sum(held, k) / held.len()
    } by {
        lemma_mean_distribution_is_near(age_rows(signals), 7, k);
    }
}

/// No signal is slower than the fused latency says, and some signal is that
/// slow.
pub proof fn lemma_max_latency(signals: Seq<InferenceSignal>)
    ensures
        forall|i: int|
            0 <= i < signals.len() ==> (#[trigger] signals[i]).latency_ms <= max_latency(signals),
        signals.len() > 0 ==> exists|i: int|
            0 <= i < signals.len() && (#[trigger] signals[i]).latency_ms == max_latency(signals),
        signals.len() == 0 ==> max_latency(signals) == 0,
    decreases signals.len(),
{
    if signals.len() > 0 {
        let front = signals.drop_last();
        lemma_max_latency(front);
        assert forall|i: int| 0 <= i < signals.len() implies (#[trigger] signals[i]).latency_ms
            <= max_latency(signals) by {
            if i < front.len() {
                assert(front[i].latency_ms <= max_latency(front));
            }
        }
        if signals.last().latency_ms > max_latency(front) || front.len() == 0 {
            assert(signals[signals.len() - 1].latency_ms == max_latency(signals));
        } else {
            let i = choose|i: int|
                0 <= i < front.len() && (#[trigger] front[i]).latency_ms == max_latency(front);
            assert(signals[i].latency_ms == max_latency(signals));
        }
    }
}

/// Two probabilities that add up to one at most, and what they leave of
/// one, are a distribution that adds up to one.
pub proof fn lemma_remainder_completes(male: u32, female: u32)
    requires
        male + female <= ONE,
    ensures
        total(seq![male as nat, female as nat, remainder(male, female)]) == ONE,
{
    let d = seq![male as nat, female as nat, remainder(male, female)];
    reveal_with_fuel(total, 4);
    assert(d.drop_last().len() == 2);
    assert(d.drop_last().drop_last().len() == 1);
}

/// A distribution holds no opinion exactly when it adds up to nothing.
pub proof fn lemma_no_opinion_is_nothing(d: Seq<nat>)
    ensures
        !has_opinion(d) <==> total(d) == 0,
{
    if !has_opinion(d) {
        lemma_total_without_opinion(d);
    }
    if total(d) == 0 {
        lemma_total_zero_is_no_opinion(d);
    }
}

/// The highest number stands at the position that [`last_highest`] gives,
/// and every number after it is lower.
pub proof fn lemma_last_highest(d: Seq<nat>)
    requires
        d.len() > 0,
    ensures
        0 <= last_highest(d) < d.len(),
        forall|k: int| 0 <= k < d.len() ==> #[trigger] d[k] <= d[last_highest(d)],
        forall|k: int| last_highest(d) < k < d.len() ==> #[trigger] d[k] < d[last_highest(d)],
    decreases d.len(),
{
    if d.len() > 1 {
        let front = d.drop_last();
        lemma_last_highest(front);
        assert forall|k: int| 0 <= k < d.len() implies #[trigger] d[k] <= d[last_highest(d)] by {
            if k < front.len() {
                assert(front[k] <= front[last_highest(front)]);
            }
        }
        assert forall|k: int| last_highest(d) < k < d.len() implies #[trigger] d[k] < d[last_highest(
            d,
        )] by {
            if k < front.len() {
                assert(front[k] < front[last_highest(front)]);
            }
        }
    }
}

/// The gender of the fuzzy view is one that no other is more probable
/// than, and the tier is that of its probability. There is no confidence
/// exactly where the signal holds no opinion on the gender.
pub proof fn lemma_resolved_gender(signal: InferenceSignal)
    ensures
        likeliest_gender(signal).1 >= signal.gender_male,
        likeliest_gender(signal).1 >= signal.gender_female,
        likeliest_gender(signal).1 >= signal.gender_other,
        resolved_gender(signal).1 == Confidence::Absent <==> !signal.gender_opinion(),
        signal.gender_opinion() ==> resolved_gender(signal).0 == likeliest_gender(signal).0
            && resolved_gender(signal).1 == Confidence::of_probability(likeliest_gender(signal).1),
{
}

/// The age bracket of the fuzzy view is one that no other is more probable
/// than and that every older one is less probable than. There is no
/// bracket, and no confidence, exactly where the signal holds no opinion on
/// the age.
pub proof fn lemma_resolved_age_group(signal: InferenceSignal)
    ensures
        resolved_age_group(signal).0 is None <==> !signal.age_opinion(),
        resolved_age_group(signal).1 == Confidence::Absent <==> !signal.age_opinion(),
        resolved_age_group(signal).0 matches Some(group) ==> {
            &&& forall|k: int|
                0 <= k < 7 ==> #[trigger] signal.age()[k] <= signal.age()[group.position()]
            &&& forall|k: int|
                group.position() < k < 7 ==> #[trigger] signal.age()[k]
                    < signal.age()[group.position()]
            &&& resolved_age_group(signal).1 == Confidence::of_probability(
                signal.age()[group.position()],
            )
        },
{
    let d = signal.age();
    lemma_last_highest(d);
    signal.lemma_opinions();
    let at = last_highest(d);
    assert(AgeGroup::at_position(at).position() == at);
    if d[at] == 0 {
        assert forall|k: int| 0 <= k < d.len() implies d[k] == 0 by {
            assert(d[k] <= d[at]);
        }
    } else {
        assert(has_opinion(d));
    }
}

} // verus!

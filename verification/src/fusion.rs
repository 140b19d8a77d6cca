//! The merge of a list of signals into one.
//!
//! The signals come in the order in which their producers were invoked. Each
//! field has a policy of its own: distributions are averaged over the
//! signals that hold an opinion, facts are taken from the first signal that
//! knows them, the ethnicity from the signal that is most confident of it.

use vstd::prelude::*;
use crate::laws::{
    any_age_opinion, any_gender_opinion, lemma_blended_well_formed,
    lemma_fused_distributions_are_means, lemma_fused_well_formed, lemma_means_add_up,
};
use crate::probability::{
    as_nats, column_sum, column_sums, has_opinion, lemma_column_sum_push, lemma_opinions_push,
    lemma_uniform_weighted_mean, mean_distribution, no_opinion, opinions, ONE,
};
use crate::shares::{share_out, wide_nats};
use crate::signal::{opt_organization, opt_text, texts, InferenceSignal, SignalView};
use crate::types::{distribution_rows, AgeGroup, OrganizationIntelligence, SignalSource};

verus! {

/// The gender distributions of the signals, one row each.
pub open spec fn gender_rows(signals: Seq<InferenceSignal>) -> Seq<Seq<nat>> {
    Seq::new(signals.len(), |j: int| signals[j].gender())
}

/// The age distributions of the signals, one row each.
pub open spec fn age_rows(signals: Seq<InferenceSignal>) -> Seq<Seq<nat>> {
    Seq::new(signals.len(), |j: int| signals[j].age())
}

/// The birth year of the first signal that knows one.
pub open spec fn first_birth_year(signals: Seq<InferenceSignal>) -> Option<u16>
    decreases signals.len(),
{
    if signals.len() == 0 {
        None
    } else {
        match first_birth_year(signals.drop_last()) {
            Some(year) => Some(year),
            None => signals.last().birth_year,
        }
    }
}

/// The organization of the first signal that has one; with `named_only`,
/// of the first signal whose organization has a name.
pub open spec fn first_organization(signals: Seq<InferenceSignal>, named_only: bool) -> Option<
    OrganizationIntelligence,
>
    decreases signals.len(),
{
    if signals.len() == 0 {
        None
    } else {
        match first_organization(signals.drop_last(), named_only) {
            Some(org) => Some(org),
            None => match signals.last().organization {
                Some(org) => if !named_only || org.name is Some {
                    Some(org)
                } else {
                    None
                },
                None => None,
            },
        }
    }
}

/// The most complete organization: the first one that has a name; where
/// none has a name, the first one.
pub open spec fn preferred_organization(signals: Seq<InferenceSignal>) -> Option<
    OrganizationIntelligence,
> {
    match first_organization(signals, true) {
        Some(org) => Some(org),
        None => first_organization(signals, false),
    }
}

/// The position of the signal whose ethnicity wins: the one with the
/// highest confidence among those with a label, the first of them where
/// several are equally confident.
pub open spec fn strongest_ethnicity(signals: Seq<InferenceSignal>) -> Option<int>
    decreases signals.len(),
{
    if signals.len() == 0 {
        None
    } else {
        let before = strongest_ethnicity(signals.drop_last());
        let last = signals.last();
        if last.ethnicity is None {
            before
        } else {
            match before {
                Some(i) => if last.ethnicity_confidence > signals[i].ethnicity_confidence {
                    Some(signals.len() - 1)
                } else {
                    Some(i)
                },
                None => Some(signals.len() - 1),
            }
        }
    }
}

/// The reasoning of all signals, one after the other.
pub open spec fn all_reasoning(signals: Seq<InferenceSignal>) -> Seq<Seq<char>>
    decreases signals.len(),
{
    if signals.len() == 0 {
        Seq::empty()
    } else {
        all_reasoning(signals.drop_last()) + texts(signals.last().reasoning@)
    }
}

/// The latency of the slowest signal; zero for no signal.
pub open spec fn max_latency(signals: Seq<InferenceSignal>) -> nat
    decreases signals.len(),
{
    if signals.len() == 0 {
        0
    } else {
        let before = max_latency(signals.drop_last());
        if signals.last().latency_ms > before {
            signals.last().latency_ms as nat
        } else {
            before
        }
    }
}

/// The tokens that a signal reports; zero where it reports none.
pub open spec fn tokens_of(signal: InferenceSignal) -> nat {
    match signal.tokens_used {
        Some(tokens) => tokens as nat,
        None => 0,
    }
}

/// The tokens that the signals report, added up.
pub open spec fn token_sum(signals: Seq<InferenceSignal>) -> nat
    decreases signals.len(),
{
    if signals.len() == 0 {
        0
    } else {
        token_sum(signals.drop_last()) + tokens_of(signals.last())
    }
}

/// Whether any signal reports its tokens.
pub open spec fn reports_tokens(signals: Seq<InferenceSignal>) -> bool {
    exists|i: int| 0 <= i < signals.len() && signals[i].tokens_used is Some
}

/// The token usage of the signals together: the sum over those that report
/// one, and nothing where none does. A sum of zero is still a report.
pub open spec fn total_tokens(signals: Seq<InferenceSignal>) -> Option<nat> {
    if reports_tokens(signals) {
        Some(token_sum(signals))
    } else {
        None
    }
}

/// The blend of the signals, field by field.
pub open spec fn blended(signals: Seq<InferenceSignal>) -> SignalView {
    SignalView {
        source: SignalSource::Local,
        gender: mean_distribution(gender_rows(signals), 3),
        ethnicity: match strongest_ethnicity(signals) {
            Some(i) => opt_text(signals[i].ethnicity),
            None => None,
        },
        ethnicity_confidence: match strongest_ethnicity(signals) {
            Some(i) => signals[i].ethnicity_confidence as nat,
            None => 0,
        },
        age: mean_distribution(age_rows(signals), 7),
        birth_year: match first_birth_year(signals) {
            Some(year) => Some(year as nat),
            None => None,
        },
        organization: opt_organization(preferred_organization(signals)),
        reasoning: all_reasoning(signals),
        latency_ms: max_latency(signals),
        tokens_used: total_tokens(signals),
    }
}

/// The fused signal: neutral for no signal, the signal itself for one, the
/// blend for more.
pub open spec fn fused(signals: Seq<InferenceSignal>) -> SignalView {
    if signals.len() == 0 {
        SignalView::neutral(SignalSource::Local)
    } else if signals.len() == 1 {
        signals[0]@
    } else {
        blended(signals)
    }
}

/// The signals can be fused: where there is something to add up, the tokens
/// that they report fit the counter of a signal.
pub open spec fn fusable(signals: Seq<InferenceSignal>) -> bool {
    signals.len() >= 2 ==> token_sum(signals) <= u32::MAX
}

/// The result of fusing well-formed signals is well formed: its gender adds
/// up to one where a signal holds an opinion on the gender, and to nothing
/// where none does, and so does its age.
pub open spec fn adds_up(result: InferenceSignal, signals: Seq<InferenceSignal>) -> bool {
    &&& result.well_formed()
    &&& result.gender_total() == if any_gender_opinion(signals) {
        ONE as nat
    } else {
        0nat
    }
    &&& result.age_total() == if any_age_opinion(signals) {
        ONE as nat
    } else {
        0nat
    }
}

proof fn lemma_take_next(signals: Seq<InferenceSignal>, i: int)
    requires
        0 <= i < signals.len(),
    ensures
        signals.take(i + 1).drop_last() == signals.take(i),
        signals.take(i + 1).last() == signals[i],
        signals.take(i + 1).len() == i + 1,
{
    assert(signals.take(i + 1).drop_last() =~= signals.take(i));
}

proof fn lemma_rows_take_next(signals: Seq<InferenceSignal>, i: int)
    requires
        0 <= i < signals.len(),
    ensures
        gender_rows(signals.take(i + 1)) == gender_rows(signals.take(i)).push(signals[i].gender()),
        age_rows(signals.take(i + 1)) == age_rows(signals.take(i)).push(signals[i].age()),
{
    assert(gender_rows(signals.take(i + 1)) =~= gender_rows(signals.take(i)).push(
        signals[i].gender(),
    ));
    assert(age_rows(signals.take(i + 1)) =~= age_rows(signals.take(i)).push(signals[i].age()));
}

/// The mean gender distribution of the signals that hold an opinion on it,
/// in whole shares.
pub fn mean_gender(signals: &Vec<InferenceSignal>) -> (mean: (u32, u32, u32))
    ensures
        seq![mean.0 as nat, mean.1 as nat, mean.2 as nat] == mean_distribution(
            gender_rows(signals@),
            3,
        ),
{
    let mut male: u128 = 0;
    let mut female: u128 = 0;
    let mut other: u128 = 0;
    let mut count: usize = 0;
    let mut i: usize = 0;
    while i < signals.len()
        invariant
            i <= signals.len(),
            count <= i,
            count == opinions(gender_rows(signals@.take(i as int))).len(),
            male == column_sum(opinions(gender_rows(signals@.take(i as int))), 0),
            female == column_sum(opinions(gender_rows(signals@.take(i as int))), 1),
            other == column_sum(opinions(gender_rows(signals@.take(i as int))), 2),
            male <= count * 0xFFFF_FFFF,
            female <= count * 0xFFFF_FFFF,
            other <= count * 0xFFFF_FFFF,
        decreases signals.len() - i,
    {
        let signal = &signals[i];
        proof {
            let before = gender_rows(signals@.take(i as int));
            let row = signal.gender();
            lemma_rows_take_next(signals@, i as int);
            lemma_opinions_push(before, row);
            lemma_column_sum_push(opinions(before), row, 0);
            lemma_column_sum_push(opinions(before), row, 1);
            lemma_column_sum_push(opinions(before), row, 2);
        }
        if signal.has_gender_signal() {
            male = male + signal.gender_male as u128;
            female = female + signal.gender_female as u128;
            other = other + signal.gender_other as u128;
            count = count + 1;
        }
        i = i + 1;
    }
    proof {
        assert(signals@.take(i as int) =~= signals@);
    }
    if count == 0 {
        proof {
            assert(seq![0nat, 0nat, 0nat] =~= no_opinion(3));
        }
        (0, 0, 0)
    } else {
        let n: u128 = count as u128;
        let mut sums: Vec<u128> = Vec::new();
        sums.push(male);
        sums.push(female);
        sums.push(other);
        proof {
            assert(n * 0xFFFF_FFFF == count * 0xFFFF_FFFF);
            assert(wide_nats(sums@) =~= column_sums(opinions(gender_rows(signals@)), 3));
        }
        let shares = share_out(&sums, n);
        let mean = (shares[0], shares[1], shares[2]);
        proof {
            assert(seq![mean.0 as nat, mean.1 as nat, mean.2 as nat] =~= as_nats(shares@));
        }
        mean
    }
}

/// The mean age distribution of the signals that hold an opinion on it:
/// their blend with one and the same weight for each.
pub fn mean_age(signals: &Vec<InferenceSignal>) -> (mean: [u32; 7])
    ensures
        as_nats(mean@) == mean_distribution(age_rows(signals@), 7),
{
    let mut held: Vec<[u32; 7]> = Vec::new();
    let mut weights: Vec<u32> = Vec::new();
    let mut i: usize = 0;
    while i < signals.len()
        invariant
            i <= signals.len(),
            distribution_rows(held@) == opinions(age_rows(signals@.take(i as int))),
            weights@.len() == held@.len(),
            forall|j: int| 0 <= j < weights@.len() ==> weights@[j] == ONE,
        decreases signals.len() - i,
    {
        let signal = &signals[i];
        proof {
            lemma_rows_take_next(signals@, i as int);
            lemma_opinions_push(age_rows(signals@.take(i as int)), signal.age());
        }
        if signal.has_age_signal() {
            let probs = signal.age_probs();
            proof {
                assert(distribution_rows(held@.push(probs)) =~= distribution_rows(held@).push(
                    signal.age(),
                ));
            }
            held.push(probs);
            weights.push(ONE);
        }
        i = i + 1;
    }
    proof {
        assert(signals@.take(i as int) =~= signals@);
    }
    if held.len() == 0 {
        let mean: [u32; 7] = [0u32; 7];
        proof {
            assert(as_nats(mean@) =~= no_opinion(7));
        }
        mean
    } else {
        let mean = AgeGroup::blend(held.as_slice(), weights.as_slice());
        proof {
            lemma_uniform_weighted_mean(distribution_rows(held@), as_nats(weights@), ONE as nat, 7);
        }
        mean
    }
}

/// The birth year of the first signal that knows one.
pub fn earliest_birth_year(signals: &Vec<InferenceSignal>) -> (year: Option<u16>)
    ensures
        year == first_birth_year(signals@),
{
    let mut year: Option<u16> = None;
    let mut i: usize = 0;
    while i < signals.len()
        invariant
            i <= signals.len(),
            year == first_birth_year(signals@.take(i as int)),
        decreases signals.len() - i,
    {
        proof {
            lemma_take_next(signals@, i as int);
        }
        if year.is_none() {
            year = signals[i].birth_year;
        }
        i = i + 1;
    }
    proof {
        assert(signals@.take(i as int) =~= signals@);
    }
    year
}

/// The most complete organization among the signals: the first one that
/// has a name; where none has a name, the first one.
pub fn best_organization(signals: &Vec<InferenceSignal>) -> (best: Option<OrganizationIntelligence>)
    ensures
        best == preferred_organization(signals@),
{
    let mut named: Option<usize> = None;
    let mut any: Option<usize> = None;
    let mut i: usize = 0;
    while i < signals.len()
        invariant
            i <= signals.len(),
            match named {
                Some(at) => at < i && first_organization(signals@.take(i as int), true)
                    == signals@[at as int].organization && signals@[at as int].organization is Some,
                None => first_organization(signals@.take(i as int), true) is None,
            },
            match any {
                Some(at) => at < i && first_organization(signals@.take(i as int), false)
                    == signals@[at as int].organization && signals@[at as int].organization is Some,
                None => first_organization(signals@.take(i as int), false) is None,
            },
        decreases signals.len() - i,
    {
        proof {
            lemma_take_next(signals@, i as int);
        }
        match &signals[i].organization {
            Some(org) => {
                if any.is_none() {
                    any = Some(i);
                }
                if named.is_none() && org.name.is_some() {
                    named = Some(i);
                }
            },
            None => {},
        }
        i = i + 1;
    }
    proof {
        assert(signals@.take(i as int) =~= signals@);
    }
    let chosen = match named {
        Some(at) => Some(at),
        None => any,
    };
    match chosen {
        Some(at) => match &signals[at].organization {
            Some(org) => Some(org.duplicate()),
            None => None,
        },
        None => None,
    }
}

/// The position of the signal whose ethnicity wins.
pub fn best_ethnicity(signals: &Vec<InferenceSignal>) -> (best: Option<usize>)
    ensures
        match best {
            Some(at) => strongest_ethnicity(signals@) == Some(at as int) && at < signals@.len(),
            None => strongest_ethnicity(signals@) is None,
        },
{
    let mut best: Option<usize> = None;
    let mut i: usize = 0;
    while i < signals.len()
        invariant
            i <= signals.len(),
            match best {
                Some(at) => strongest_ethnicity(signals@.take(i as int)) == Some(at as int) && at
                    < i,
                None => strongest_ethnicity(signals@.take(i as int)) is None,
            },
        decreases signals.len() - i,
    {
        proof {
            lemma_take_next(signals@, i as int);
        }
        if signals[i].ethnicity.is_some() {
            match best {
                Some(at) => {
                    assert(signals@.take(i as int + 1)[at as int] == signals@[at as int]);
                    if signals[i].ethnicity_confidence > signals[at].ethnicity_confidence {
                        best = Some(i);
                    }
                },
                None => {
                    best = Some(i);
                },
            }
        }
        i = i + 1;
    }
    proof {
        assert(signals@.take(i as int) =~= signals@);
    }
    best
}

/// The reasoning of all signals, one after the other, each in its own
/// order.
pub fn combined_reasoning(signals: &Vec<InferenceSignal>) -> (lines: Vec<String>)
    ensures
        texts(lines@) == all_reasoning(signals@),
{
    let mut lines: Vec<String> = Vec::new();
    let mut i: usize = 0;
    proof {
        assert(texts(lines@) =~= all_reasoning(signals@.take(0)));
    }
    while i < signals.len()
        invariant
            i <= signals.len(),
            texts(lines@) == all_reasoning(signals@.take(i as int)),
        decreases signals.len() - i,
    {
        let notes = &signals[i].reasoning;
        let mut l: usize = 0;
        proof {
            assert(texts(lines@) =~= all_reasoning(signals@.take(i as int)) + texts(
                notes@.take(0),
            ));
        }
        while l < notes.len()
            invariant
                l <= notes.len(),
                texts(lines@) == all_reasoning(signals@.take(i as int)) + texts(
                    notes@.take(l as int),
                ),
            decreases notes.len() - l,
        {
            let line = notes[l].clone();
            proof {
                assert(line == notes@[l as int]);
                assert(texts(lines@.push(line)) =~= texts(lines@).push(line@));
                assert(texts(notes@.take(l as int + 1)) =~= texts(notes@.take(l as int)).push(
                    line@,
                ));
                assert(texts(lines@.push(line)) =~= all_reasoning(signals@.take(i as int)) + texts(
                    notes@.take(l as int + 1),
                ));
            }
            lines.push(line);
            l = l + 1;
        }
        proof {
            lemma_take_next(signals@, i as int);
            assert(notes@.take(l as int) =~= notes@);
        }
        i = i + 1;
    }
    proof {
        assert(signals@.take(i as int) =~= signals@);
    }
    lines
}

/// The latency of the slowest signal; zero for no signal.
pub fn slowest(signals: &Vec<InferenceSignal>) -> (latency: u64)
    ensures
        latency == max_latency(signals@),
{
    let mut latency: u64 = 0;
    let mut i: usize = 0;
    while i < signals.len()
        invariant
            i <= signals.len(),
            latency == max_latency(signals@.take(i as int)),
        decreases signals.len() - i,
    {
        proof {
            lemma_take_next(signals@, i as int);
        }
        if signals[i].latency_ms > latency {
            latency = signals[i].latency_ms;
        }
        i = i + 1;
    }
    proof {
        assert(signals@.take(i as int) =~= signals@);
    }
    latency
}

/// The tokens that the signals report, added up, and whether any reports.
fn count_tokens(signals: &Vec<InferenceSignal>) -> (counted: (u128, bool))
    ensures
        counted.0 == token_sum(signals@),
        counted.1 == reports_tokens(signals@),
{
    let mut sum: u128 = 0;
    let mut reported: bool = false;
    let mut i: usize = 0;
    while i < signals.len()
        invariant
            i <= signals.len(),
            sum == token_sum(signals@.take(i as int)),
            sum <= i * 0xFFFF_FFFF,
            reported == reports_tokens(signals@.take(i as int)),
        decreases signals.len() - i,
    {
        proof {
            lemma_take_next(signals@, i as int);
            let before = signals@.take(i as int);
            let now = signals@.take(i as int + 1);
            if reports_tokens(before) {
                let j = choose|j: int| 0 <= j < before.len() && before[j].tokens_used is Some;
                assert(now[j].tokens_used is Some);
            }
            if signals@[i as int].tokens_used is Some {
                assert(now[i as int].tokens_used is Some);
            }
            if reports_tokens(now) {
                let j = choose|j: int| 0 <= j < now.len() && now[j].tokens_used is Some;
                if j < i {
                    assert(before[j].tokens_used is Some);
                }
            }
        }
        match signals[i].tokens_used {
            Some(tokens) => {
                sum = sum + tokens as u128;
                reported = true;
            },
            None => {},
        }
        i = i + 1;
    }
    proof {
        assert(signals@.take(i as int) =~= signals@);
    }
    (sum, reported)
}

/// The token usage of the signals together.
pub fn sum_tokens(signals: &Vec<InferenceSignal>) -> (total: Option<u32>)
    requires
        token_sum(signals@) <= u32::MAX,
    ensures
        match total {
            Some(tokens) => total_tokens(signals@) == Some(tokens as nat),
            None => total_tokens(signals@) is None,
        },
{
    let counted = count_tokens(signals);
    if counted.1 {
        Some(counted.0 as u32)
    } else {
        None
    }
}

/// Whether the signals can be fused: see [`fusable`].
pub fn can_fuse(signals: &Vec<InferenceSignal>) -> (fits: bool)
    ensures
        fits == fusable(signals@),
{
    if signals.len() < 2 {
        true
    } else {
        let counted = count_tokens(signals);
        counted.0 <= 0xFFFF_FFFF
    }
}

/// Blends the signals field by field: [`blended`] says how.
pub fn blend(signals: Vec<InferenceSignal>) -> (result: InferenceSignal)
    requires
        token_sum(signals@) <= u32::MAX,
    ensures
        result@ == blended(signals@),
        (forall|i: int| 0 <= i < signals@.len() ==> (#[trigger] signals@[i]).well_formed())
            ==> adds_up(result, signals@),
{
    blend_borrowed(&signals)
}

/// Blends signals that stay with the caller: [`blended`] says how.
pub fn blend_borrowed(signals: &Vec<InferenceSignal>) -> (result: InferenceSignal)
    requires
        token_sum(signals@) <= u32::MAX,
    ensures
        result@ == blended(signals@),
        (forall|i: int| 0 <= i < signals@.len() ==> (#[trigger] signals@[i]).well_formed())
            ==> adds_up(result, signals@),
{
    proof {
        if forall|i: int| 0 <= i < signals@.len() ==> (#[trigger] signals@[i]).well_formed() {
            lemma_blended_well_formed(signals@);
            lemma_means_add_up(signals@);
        }
    }
    let mut result = InferenceSignal::new(SignalSource::Local);
    let gender = mean_gender(signals);
    result.gender_male = gender.0;
    result.gender_female = gender.1;
    result.gender_other = gender.2;
    let age = mean_age(signals);
    result.set_age_probs(age);
    result.birth_year = earliest_birth_year(signals);
    result.organization = best_organization(signals);
    match best_ethnicity(signals) {
        Some(at) => {
            result.ethnicity = match &signals[at].ethnicity {
                Some(label) => Some(label.clone()),
                None => None,
            };
            result.ethnicity_confidence = signals[at].ethnicity_confidence;
        },
        None => {},
    }
    result.reasoning = combined_reasoning(signals);
    result.latency_ms = slowest(signals);
    result.tokens_used = sum_tokens(signals);
    proof {
        assert(result.gender() =~= mean_distribution(gender_rows(signals@), 3));
        result.lemma_totals();
    }
    result
}

/// Fuses the signals of one request into one signal.
///
/// No signal gives a neutral signal, one signal is returned as it is, and
/// two or more are blended:
/// - gender and age: the mean of the distributions that hold an opinion,
///   in whole shares that add up to what the distributions add up to;
///   neutral where none holds one;
/// - birth year: that of the first signal that knows one;
/// - organization: the first that has a name, else the first;
/// - ethnicity: label and confidence of the signal that is most confident,
///   the first of them where several are;
/// - reasoning: that of all signals, in their order;
/// - latency: that of the slowest signal;
/// - tokens: the sum over the signals that report them.
///
/// Fusing well-formed signals gives a well-formed signal: its gender and its
/// age add up to one where a signal holds an opinion on them.
pub fn fuse(signals: Vec<InferenceSignal>) -> (result: InferenceSignal)
    requires
        fusable(signals@),
    ensures
        result@ == fused(signals@),
        signals@.len() == 1 ==> result == signals@[0],
        (forall|i: int| 0 <= i < signals@.len() ==> (#[trigger] signals@[i]).well_formed())
            ==> adds_up(result, signals@),
{
    let ghost given = signals@;
    let mut signals = signals;
    let result = if signals.len() == 0 {
        InferenceSignal::new(SignalSource::Local)
    } else if signals.len() == 1 {
        match signals.pop() {
            Some(only) => only,
            None => vstd::pervasive::unreached(),
        }
    } else {
        blend(signals)
    };
    proof {
        if forall|i: int| 0 <= i < given.len() ==> (#[trigger] given[i]).well_formed() {
            lemma_fused_well_formed(given);
            lemma_fused_distributions_are_means(given);
            lemma_means_add_up(given);
            result.lemma_totals();
        }
    }
    result
}

/// Fuses signals that stay with the caller: the result holds what [`fuse`]
/// gives for them.
pub fn fuse_borrowed(signals: &Vec<InferenceSignal>) -> (result: InferenceSignal)
    requires
        fusable(signals@),
    ensures
        result@ == fused(signals@),
        (forall|i: int| 0 <= i < signals@.len() ==> (#[trigger] signals@[i]).well_formed())
            ==> adds_up(result, signals@),
{
    let result = if signals.len() == 0 {
        InferenceSignal::new(SignalSource::Local)
    } else if signals.len() == 1 {
        signals[0].duplicate()
    } else {
        blend_borrowed(signals)
    };
    proof {
        if forall|i: int| 0 <= i < signals@.len() ==> (#[trigger] signals@[i]).well_formed() {
            lemma_fused_well_formed(signals@);
            lemma_fused_distributions_are_means(signals@);
            lemma_means_add_up(signals@);
            result.lemma_totals();
        }
    }
    result
}

} // verus!

//! What the model says about a name, and what it adds to a signal.

use vstd::prelude::*;
use crate::probability::{lemma_total_of_three, ONE};
use crate::signal::{opt_text, texts, InferenceSignal, SignalView};
use crate::vision::parser::{remainder, rest_of_one};

verus! {

/// The reply of the model about a name and an address. The probabilities
/// are in billionths.
#[derive(Debug, Clone, PartialEq, Eq)]
pub struct OnomasticResult {
    pub gender_male: u32,
    pub gender_female: u32,
    pub ethnicity: Option<String>,
    pub ethnicity_confidence: u32,
    pub reasoning: String,
}

/// The signal after the reply of the model was applied to it. A reply that
/// gives a probability to male or to female sets the gender, with what the
/// two leave of one as the third. A reply that names an ethnicity with some
/// confidence sets both. The reasoning of the reply is added in any case.
pub open spec fn onomastic_applied(before: SignalView, result: OnomasticResult) -> SignalView {
    let named = result.ethnicity is Some && result.ethnicity_confidence > 0;
    SignalView {
        gender: if result.gender_male > 0 || result.gender_female > 0 {
            seq![
                result.gender_male as nat,
                result.gender_female as nat,
                remainder(result.gender_male, result.gender_female),
            ]
        } else {
            before.gender
        },
        ethnicity: if named {
            opt_text(result.ethnicity)
        } else {
            before.ethnicity
        },
        ethnicity_confidence: if named {
            result.ethnicity_confidence as nat
        } else {
            before.ethnicity_confidence
        },
        reasoning: before.reasoning.push(result.reasoning@),
        ..before
    }
}

/// The reply keeps a signal well formed where its two probabilities add up
/// to one at most and its confidence is one at most.
pub proof fn lemma_onomastic_applied_well_formed(before: SignalView, result: OnomasticResult)
    requires
        before.well_formed(),
        result.gender_male + result.gender_female <= ONE,
        result.ethnicity_confidence <= ONE,
    ensures
        onomastic_applied(before, result).well_formed(),
{
    let after = onomastic_applied(before, result);
    if result.gender_male > 0 || result.gender_female > 0 {
        lemma_total_of_three(after.gender);
    }
}

/// Applies the reply of the model to a signal: [`onomastic_applied`] says
/// how.
pub fn apply_result(signal: &mut InferenceSignal, result: OnomasticResult)
    ensures
        final(signal)@ == onomastic_applied(old(signal)@, result),
        old(signal).well_formed() && result.gender_male + result.gender_female <= ONE
            && result.ethnicity_confidence <= ONE ==> final(signal).well_formed(),
{
    proof {
        if signal.well_formed() && result.gender_male + result.gender_female <= ONE
            && result.ethnicity_confidence <= ONE {
            lemma_onomastic_applied_well_formed(signal@, result);
        }
    }
    if result.gender_male > 0 || result.gender_female > 0 {
        signal.gender_male = result.gender_male;
        signal.gender_female = result.gender_female;
        signal.gender_other = rest_of_one(result.gender_male, result.gender_female);
    }
    if result.ethnicity.is_some() && result.ethnicity_confidence > 0 {
        signal.ethnicity = result.ethnicity;
        signal.ethnicity_confidence = result.ethnicity_confidence;
    }
    proof {
        assert(texts(signal.reasoning@.push(result.reasoning)) =~= texts(signal.reasoning@).push(
            result.reasoning@,
        ));
    }
    signal.reasoning.push(result.reasoning);
    proof {
        assert(signal@.gender =~= onomastic_applied(old(signal)@, result).gender);
    }
}

} // verus!

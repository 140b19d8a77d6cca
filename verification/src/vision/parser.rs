//! What the model says about a picture, and what it adds to a signal.

use vstd::prelude::*;
use vstd::string::StringExecFns;
use crate::probability::{lemma_total_of_three, ONE};
use crate::signal::{texts, InferenceSignal, SignalView};
use crate::text::same_text;
use crate::types::{lemma_one_hot, one_hot, AgeGroup};

verus! {

/// The reply of the model about a picture. The probabilities are in
/// billionths.
#[derive(Debug, Clone, PartialEq, Eq)]
pub struct VisionResult {
    pub gender_male: u32,
    pub gender_female: u32,
    pub age_group: Option<String>,
    pub age_confidence: u32,
    pub is_human: bool,
    pub reasoning: String,
}

/// The age bracket that a label names.
pub open spec fn age_group_named(label: Seq<char>) -> Option<AgeGroup> {
    if label == "under_18"@ {
        Some(AgeGroup::Under18)
    } else if label == "18-24"@ {
        Some(AgeGroup::Age18_24)
    } else if label == "25-34"@ {
        Some(AgeGroup::Age25_34)
    } else if label == "35-44"@ {
        Some(AgeGroup::Age35_44)
    } else if label == "45-54"@ {
        Some(AgeGroup::Age45_54)
    } else if label == "55-64"@ {
        Some(AgeGroup::Age55_64)
    } else if label == "65+"@ {
        Some(AgeGroup::Age65Plus)
    } else {
        None
    }
}

/// What is left of one after two probabilities; nothing where they add up
/// to more than one.
pub open spec fn remainder(male: u32, female: u32) -> nat {
    if male + female <= ONE {
        (ONE - male - female) as nat
    } else {
        0
    }
}

/// The signal after the reply of the model was applied to it. For a human
/// the reply sets the gender, with what the two probabilities leave of one
/// as the third, sets the age to the bracket that it names, if it names
/// one, and adds its reasoning. For anything else only a note is added.
pub open spec fn vision_applied(before: SignalView, result: VisionResult) -> SignalView {
    if result.is_human {
        SignalView {
            gender: seq![
                result.gender_male as nat,
                result.gender_female as nat,
                remainder(result.gender_male, result.gender_female),
            ],
            age: match result.age_group {
                Some(label) => match age_group_named(label@) {
                    Some(group) => one_hot(group.position()),
                    None => before.age,
                },
                None => before.age,
            },
            reasoning: before.reasoning.push(result.reasoning@),
            ..before
        }
    } else {
        SignalView { reasoning: before.reasoning.push("Profile picture is not human."@), ..before }
    }
}

/// The reply keeps a signal well formed where its two probabilities add up
/// to one at most.
pub proof fn lemma_vision_applied_well_formed(before: SignalView, result: VisionResult)
    requires
        before.well_formed(),
        result.gender_male + result.gender_female <= ONE,
    ensures
        vision_applied(before, result).well_formed(),
{
    let after = vision_applied(before, result);
    if result.is_human {
        lemma_total_of_three(after.gender);
        match result.age_group {
            Some(label) => match age_group_named(label@) {
                Some(group) => {
                    lemma_one_hot(group.position());
                },
                None => {},
            },
            None => {},
        }
    }
}

/// Reads the label of an age bracket.
pub fn parse_age_group(s: &str) -> (group: Option<AgeGroup>)
    ensures
        group == age_group_named(s@),
{
    if same_text(s, "under_18") {
        Some(AgeGroup::Under18)
    } else if same_text(s, "18-24") {
        Some(AgeGroup::Age18_24)
    } else if same_text(s, "25-34") {
        Some(AgeGroup::Age25_34)
    } else if same_text(s, "35-44") {
        Some(AgeGroup::Age35_44)
    } else if same_text(s, "45-54") {
        Some(AgeGroup::Age45_54)
    } else if same_text(s, "55-64") {
        Some(AgeGroup::Age55_64)
    } else if same_text(s, "65+") {
        Some(AgeGroup::Age65Plus)
    } else {
        None
    }
}

/// What is left of one after two probabilities.
pub fn rest_of_one(male: u32, female: u32) -> (rest: u32)
    ensures
        rest == remainder(male, female),
{
    let taken: u64 = male as u64 + female as u64;
    if taken <= ONE as u64 {
        (ONE as u64 - taken) as u32
    } else {
        0
    }
}

/// Applies the reply of the model to a signal: [`vision_applied`] says how.
pub fn apply_result(signal: &mut InferenceSignal, result: VisionResult)
    ensures
        final(signal)@ == vision_applied(old(signal)@, result),
        old(signal).well_formed() && result.gender_male + result.gender_female <= ONE
            ==> final(signal).well_formed(),
{
    proof {
        if signal.well_formed() && result.gender_male + result.gender_female <= ONE {
            lemma_vision_applied_well_formed(signal@, result);
        }
    }
    if result.is_human {
        signal.gender_male = result.gender_male;
        signal.gender_female = result.gender_female;
        signal.gender_other = rest_of_one(result.gender_male, result.gender_female);
        match &result.age_group {
            Some(label) => {
                match parse_age_group(label.as_str()) {
                    Some(group) => {
                        signal.set_age_probs(group.to_one_hot());
                    },
                    None => {},
                }
            },
            None => {},
        }
        proof {
            assert(texts(signal.reasoning@.push(result.reasoning)) =~= texts(
                signal.reasoning@,
            ).push(result.reasoning@));
        }
        signal.reasoning.push(result.reasoning);
        proof {
            assert(signal@.gender =~= vision_applied(old(signal)@, result).gender);
        }
    } else {
        let note = String::from_str("Profile picture is not human.");
        proof {
            assert(texts(signal.reasoning@.push(note)) =~= texts(signal.reasoning@).push(note@));
        }
        signal.reasoning.push(note);
    }
}

} // verus!

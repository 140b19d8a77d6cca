//! The instructions that go to the model with a name and an address.

use vstd::prelude::*;
use vstd::string::StringExecFns;

verus! {

pub const PROMPT_BEFORE_NAME: &'static str =
    "Analyze the name and email to infer gender and ethnicity/cultural background.\n\nName: ";

pub const PROMPT_BEFORE_EMAIL: &'static str = "\nEmail: ";

pub const PROMPT_AFTER_EMAIL: &'static str =
    "\n\nReturn ONLY JSON, no markdown:\n{\"gender_male\": 0.0, \"gender_female\": 0.0, \"ethnicity\": \"south_asian\"|\"east_asian\"|\"southeast_asian\"|\"european\"|\"african\"|\"latin_american\"|\"middle_eastern\"|null, \"ethnicity_confidence\": 0.0, \"reasoning\": \"...\"}";

/// The instructions for a name and an address: the fixed text with the two
/// in their places.
pub open spec fn prompt_for(name: Seq<char>, email: Seq<char>) -> Seq<char> {
    PROMPT_BEFORE_NAME@ + name + PROMPT_BEFORE_EMAIL@ + email + PROMPT_AFTER_EMAIL@
}

/// The instructions that go to the model with a name and an address.
pub fn analyze(name: &str, email: &str) -> (text: String)
    ensures
        text@ == prompt_for(name@, email@),
{
    let mut text = String::from_str(PROMPT_BEFORE_NAME);
    text.append(name);
    text.append(PROMPT_BEFORE_EMAIL);
    text.append(email);
    text.append(PROMPT_AFTER_EMAIL);
    text
}

} // verus!

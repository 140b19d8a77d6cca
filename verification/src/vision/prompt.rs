//! The instructions that go to the model with a picture.

use vstd::prelude::*;
use vstd::string::StringExecFns;

verus! {

pub const IMAGE_PROMPT: &'static str =
    "Analyze this profile picture. Return ONLY JSON, no markdown:\n    {\n        \"gender_male\": 0.0, \n        \"gender_female\": 0.0, \n        \"age_group\": \"18-24\"|\"25-34\"|\"35-44\"|\"45-54\"|\"55-64\"|\"65+\"|null, \n        \"age_confidence\": 0.0, \n        \"is_human\": true|false, \n        \"reasoning\": \"...\"\n    }\n    ";

/// The instructions that go to the model with a picture.
pub fn analyze_image() -> (text: String)
    ensures
        text@ == IMAGE_PROMPT@,
{
    String::from_str(IMAGE_PROMPT)
}

} // verus!

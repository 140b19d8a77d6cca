//! The questions of the mode in which one question to the model answers
//! everything: templates that the inputs are written into.

use vstd::prelude::*;
use vstd::string::StringExecFns;
use crate::model::{GazeRequest, InferRequest};
use crate::signal::{opt_text, texts};
use crate::text::{replace_all, replaced};

verus! {

pub const INFER_TEMPLATE: &'static str =
    "You are a demographic infer system. Given a name email, estimate gender and age probabilities.\n    \n        Input: \n        - Name: {NAME}\n        - Email: {EMAIL}\n\n        Respond ONLY with valid JSON in this exact format, no other text: \n        {\n          \"gender\": { \"male\": 0.0, \"female\": \"0.0\", \"others\": 0.0 },\n          \"age_bucket\": { \"18-24\": 0.0, \"25-34\": 0.0, \"35-44\": 0.0, \"45+\": 0.0 },\n          \"region_hint\": \"string or null\",\n          \"confidence\": 0.0,\n        }\n\n        Rules:\n        - All probabilities must sum to 1.0 within their category\n        - Confidence is 0.0-1.0 based on how certain you are\n        - Use cultural and linguistic patterns from the name \n        - Use email domain hints (TLD, organization type)\n        - If uncertain, distribute probabilities more evenly";

pub const GAZE_TEMPLATE: &'static str =
    "You are demographic infer system. Analyze ONLY the available signals. DO NOT guess.\n\n    Input:\n    {INPUTS}\n\n    Respond ONLY with valid JSON in the exact format, no other text:\n    {\n      \"gender\": \"male\" | \"female\" | \"undetermined\",\n      \"gender_confidence\": \"low\" | \"medium\" | \"strong\",\n      \"ethnicity\": \"string describing likely ethnicity\",\n      \"ethnicity_confidence\": \"low\" | \"medium\" | \"strong\",\n      \"age_group\": \"under_18\" | \"18-24\" | \"25-34\" | \"35-44\" | \"45-54\" | \"55-64\" | \"65+\" | null,\n      \"age_group_confidence\": \"low\" | \"medium\" | \"strong\" | null,\n      \"birth_year\": number | null,\n      \"birth_year_source\": \"email_pattern\" | \"profile_image\" | \"browsing_history\" | null,\n      \"reasoning\": [\"reason1\", \"reason2\", ...],\n      \"edge_case\": true | false,\n    }\n\n    SRICT RULES:\n    1. birth_year: ONLY exact if a 4-digit year (1940-2012) appears in email username. Otherwise MUST be null. \n    2. age_group:\n       - MUST be one of EXACTLY these values: \"under_18\", \"18-24\", \"25-34\", \"35-44\", \"45-54\", \"55-64\", \"65+\", or null\n       - If birth_year was extracted: MUST calculate age_group from birth_year w.r.t current year and pick the matching age_bucket\n       - If NO birth_year and NO profile picture: MUST be null\n       - If profile picture provided: may infer from visual appearence\n    3. gender:\n       - Extract name from email username (e.g. \"priya.sharma@\" -> \"Priya.Sharma\")\n       - If name is clearly gendered (Priya, Robert, Sarah): infer gender\n       - If name is ambiguous (Alex, Jordan, Kim) or just initials (j.smith): return \"undetermined\"\n       - If profile picture provided: use visual appearence as strongest signal\n    4. ethnicity: infer from name patterns (surename, cultural origin ). Be specific: \"south_asian\", \"east_asian\", \"western_european\", \"african\", \"latin_american\", \"middle_eastern\", \"unknown\"\n    5. confidence: \"strong\" ONLY when signal is unambiguous\n    6. reasoning: explain what signals you used and what you could NOT determine\n    7. edge_case: true if signals are weak or conflicting\n\n    Profile picture provided: {HAS_PIC}";

/// The text of a truth value.
pub open spec fn truth_text(b: bool) -> Seq<char> {
    if b {
        "true"@
    } else {
        "false"@
    }
}

/// The question about a name and an address: the template with the name in
/// every place of `{NAME}` and then the address in every place of
/// `{EMAIL}`, a place that the name brought with it too.
pub open spec fn infer_prompt(name: Seq<char>, email: Seq<char>) -> Seq<char> {
    replaced(replaced(INFER_TEMPLATE@, "{NAME}"@, name), "{EMAIL}"@, email)
}

/// The question about the listed inputs: the template with the list in
/// every place of `{INPUTS}` and then the truth value in every place of
/// `{HAS_PIC}`, a place that the list brought with it too.
pub open spec fn gaze_prompt(inputs: Seq<char>, has_profile_pic: bool) -> Seq<char> {
    replaced(
        replaced(GAZE_TEMPLATE@, "{INPUTS}"@, inputs),
        "{HAS_PIC}"@,
        truth_text(has_profile_pic),
    )
}

/// The question about a name and an address: see [`infer_prompt`].
pub fn infer_p(name: &str, email: &str) -> (prompt: String)
    ensures
        prompt@ == infer_prompt(name@, email@),
{
    let with_name = replace_all(INFER_TEMPLATE, "{NAME}", name);
    replace_all(with_name.as_str(), "{EMAIL}", email)
}

/// The question about the listed inputs: see [`gaze_prompt`].
pub fn gaze_p(inputs: &str, has_profile_pic: bool) -> (prompt: String)
    ensures
        prompt@ == gaze_prompt(inputs@, has_profile_pic),
{
    let with_inputs = replace_all(GAZE_TEMPLATE, "{INPUTS}", inputs);
    let truth: &str = if has_profile_pic {
        "true"
    } else {
        "false"
    };
    replace_all(with_inputs.as_str(), "{HAS_PIC}", truth)
}

/// The texts with the separator between each two of them.
pub open spec fn joined(parts: Seq<Seq<char>>, separator: Seq<char>) -> Seq<char>
    decreases parts.len(),
{
    if parts.len() == 0 {
        Seq::empty()
    } else if parts.len() == 1 {
        parts[0]
    } else {
        joined(parts.drop_last(), separator) + separator + parts.last()
    }
}

/// The list of the inputs of a request, one line each: the address, the
/// name where there is one, and the browsing history where there is one,
/// its entries with a comma between them.
pub open spec fn listed_inputs(
    email: Seq<char>,
    name: Option<Seq<char>>,
    browsing_history: Option<Seq<Seq<char>>>,
) -> Seq<char> {
    "- Email: "@ + email + (match name {
        Some(n) => "\n- Name: "@ + n,
        None => Seq::empty(),
    }) + (match browsing_history {
        Some(history) => "\n- Browsing History: "@ + joined(history, ", "@),
        None => Seq::empty(),
    })
}

/// The texts with the separator between each two of them.
pub fn join(parts: &Vec<String>, separator: &str) -> (text: String)
    ensures
        text@ == joined(texts(parts@), separator@),
{
    let mut text = String::new();
    let mut i: usize = 0;
    while i < parts.len()
        invariant
            i <= parts.len(),
            text@ == joined(texts(parts@).take(i as int), separator@),
        decreases parts.len() - i,
    {
        proof {
            assert(texts(parts@).take(i as int + 1).drop_last() =~= texts(parts@).take(i as int));
            assert(Seq::<char>::empty() + parts@[i as int]@ =~= parts@[i as int]@);
        }
        if i > 0 {
            text.append(separator);
        }
        text.append(parts[i].as_str());
        i = i + 1;
    }
    proof {
        assert(texts(parts@).take(i as int) =~= texts(parts@));
    }
    text
}

/// The list of the inputs of a request: see [`listed_inputs`].
pub fn gaze_inputs(
    email: &str,
    name: Option<&str>,
    browsing_history: Option<&Vec<String>>,
) -> (list: String)
    ensures
        list@ == listed_inputs(
            email@,
            match name {
                Some(n) => Some(n@),
                None => None,
            },
            match browsing_history {
                Some(history) => Some(texts(history@)),
                None => None,
            },
        ),
{
    let mut list = String::from_str("- Email: ");
    list.append(email);
    match name {
        Some(n) => {
            list.append("\n- Name: ");
            list.append(n);
        },
        None => {
            proof {
                assert(list@ + Seq::<char>::empty() =~= list@);
            }
        },
    }
    match browsing_history {
        Some(history) => {
            list.append("\n- Browsing History: ");
            list.append(join(history, ", ").as_str());
        },
        None => {
            proof {
                assert(list@ + Seq::<char>::empty() =~= list@);
            }
        },
    }
    list
}

/// The question that a request for gender and age asks: the one about its
/// name and its address.
pub fn infer_question(request: &InferRequest) -> (prompt: String)
    ensures
        prompt@ == infer_prompt(request.name@, request.email@),
{
    infer_p(request.name.as_str(), request.email.as_str())
}

/// The question that a request for everything asks: the one about the list
/// of its inputs, which says too whether a profile picture came with it.
pub fn gaze_question(request: &GazeRequest) -> (prompt: String)
    ensures
        prompt@ == gaze_prompt(
            listed_inputs(
                request.email@,
                opt_text(request.name),
                match request.browsing_history {
                    Some(history) => Some(texts(history@)),
                    None => None,
                },
            ),
            request.profile_pic_url is Some,
        ),
{
    let name: Option<&str> = match &request.name {
        Some(text) => Some(text.as_str()),
        None => None,
    };
    let history: Option<&Vec<String>> = match &request.browsing_history {
        Some(entries) => Some(entries),
        None => None,
    };
    let inputs = gaze_inputs(request.email.as_str(), name, history);
    gaze_p(inputs.as_str(), request.profile_pic_url.is_some())
}

} // verus!

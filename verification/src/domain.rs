//! The producer that looks the domain of the address up.
//!
//! It asks a chat model what organization stands behind the domain. The
//! reply is a JSON document inside the JSON document of the response; what
//! it says of the organization becomes the organization of the signal.

use vstd::prelude::*;
use vstd::string::StringExecFns;
use crate::llm::Start;
use crate::local::{domain_part, email_domain};
use crate::signal::{opt_text, texts, InferenceInput, InferenceSignal, OrganizationView, SignalView};
use crate::text::{strip_markdown, stripped_markdown};
use crate::types::{OrganizationIntelligence, SignalSource};

verus! {

pub const PROMPT_BEFORE_DOMAIN: &'static str = "Given the email domain \"";

pub const PROMPT_AFTER_DOMAIN: &'static str =
    "\", provide organization intelligence.\n\nIf this is a subsidiary or owned by a parent company, include that relationship in the name field like \"Company Name (subsidiary of Parent)\" or \"Company Name (part of Parent)\".\n\nReturn JSON only, no markdown:\n{\n  \"name\": \"Full org name with parent relationship if applicable\" or null,\n  \"category\": \"Industry / Sub-category\" or null,\n  \"employee_count\": \"~X employees\" or null,\n  \"employee_count_source\": \"Source name\" or null\n}\n            \nIf you can't confidently identify the organization, return all nulls.";

/// Where the reply of the model stands in the response.
pub const CONTENT_POINTER: &'static str = "/choices/0/message/content";

/// `serde_json::Value`: a JSON document that was read. The library hands
/// it on and looks at it only through [`text_at`].
#[verifier::external_type_specification]
#[verifier::external_body]
pub struct ExJsonValue(serde_json::Value);

/// The texts that a JSON value holds: for every JSON pointer that leads to
/// a string (`serde_json::Value::pointer`, then `as_str`), the text of that
/// string. A pointer that leads to nothing, or to something that is no
/// string, has no text.
pub uninterp spec fn json_texts(value: serde_json::Value) -> Map<Seq<char>, Seq<char>>;

/// The texts that a document holds as JSON, and nothing where it is not
/// JSON (`serde_json::from_str` fails).
pub uninterp spec fn json_document(document: Seq<char>) -> Option<Map<Seq<char>, Seq<char>>>;

/// The text at a place, if there is one.
pub open spec fn text_of(texts: Map<Seq<char>, Seq<char>>, pointer: Seq<char>) -> Option<
    Seq<char>,
> {
    if texts.dom().contains(pointer) {
        Some(texts[pointer])
    } else {
        None
    }
}

/// What a JSON document holds at a place: the text that the JSON pointer
/// leads to, and no text where it leads to none. There is no answer at all
/// where the document is not JSON.
pub open spec fn json_text(document: Seq<char>, pointer: Seq<char>) -> Option<Option<Seq<char>>> {
    match json_document(document) {
        Some(texts) => Some(text_of(texts, pointer)),
        None => None,
    }
}

/// What a reply says of an organization.
#[derive(Debug, Clone, PartialEq, Eq)]
pub struct OrganizationFields {
    pub name: Option<String>,
    pub category: Option<String>,
    pub employee_count: Option<String>,
    pub employee_count_source: Option<String>,
}

/// The instructions for a domain: the fixed text with the domain in its
/// place.
pub open spec fn prompt_for(domain: Seq<char>) -> Seq<char> {
    PROMPT_BEFORE_DOMAIN@ + domain + PROMPT_AFTER_DOMAIN@
}

/// What a reply says of an organization, if the reply is a JSON document:
/// the texts of its members `name`, `category`, `employee_count` and
/// `employee_count_source`, each absent where the member is.
pub open spec fn fields_in(reply: Seq<char>) -> Option<
    (Option<Seq<char>>, Option<Seq<char>>, Option<Seq<char>>, Option<Seq<char>>),
> {
    match (
        json_text(reply, "/name"@),
        json_text(reply, "/category"@),
        json_text(reply, "/employee_count"@),
        json_text(reply, "/employee_count_source"@),
    ) {
        (Some(name), Some(category), Some(count), Some(source)) => Some(
            (name, category, count, source),
        ),
        _ => None,
    }
}

/// The organization that a response tells of a domain: what the reply in
/// the response, without its frame, says of it. There is none where the
/// response is not JSON, holds no reply, or the reply is not JSON.
///
/// The reply is looked up with a JSON pointer, which follows the members of
/// an object as well as the elements of an array: where `choices` is no
/// array but an object with a member named `0`, that member is followed and
/// its reply is read.
pub open spec fn enriched(domain: Seq<char>, body: Seq<char>) -> Option<OrganizationView> {
    match json_text(body, CONTENT_POINTER@) {
        Some(Some(content)) => match fields_in(stripped_markdown(content)) {
            Some(fields) => Some(
                OrganizationView {
                    domain,
                    name: fields.0,
                    category: fields.1,
                    employee_count: fields.2,
                    employee_count_source: fields.3,
                },
            ),
            None => None,
        },
        _ => None,
    }
}

/// The text of an optional field; `unknown` where the field is absent.
pub open spec fn text_or_unknown(field: Option<Seq<char>>) -> Seq<char> {
    match field {
        Some(text) => text,
        None => "unknown"@,
    }
}

/// The note on an organization that was found for a domain.
pub open spec fn enriched_note(domain: Seq<char>, org: OrganizationView) -> Seq<char> {
    "Domain "@ + domain + " enriched: "@ + text_or_unknown(org.name) + " ("@ + text_or_unknown(
        org.category,
    ) + ")"@
}

/// The signal of the producer: with the organization and a note on it where
/// one was found, and without any opinion where none was.
pub open spec fn finished(domain: Seq<char>, found: Option<OrganizationView>) -> SignalView {
    match found {
        Some(org) => SignalView {
            organization: Some(org),
            reasoning: seq![enriched_note(domain, org)],
            ..SignalView::neutral(SignalSource::Domain)
        },
        None => SignalView::neutral(SignalSource::Domain),
    }
}

/// `serde_json::from_str` into a `serde_json::Value`: the document as JSON,
/// whose texts [`json_document`] names; none where the document is not
/// JSON.
#[verifier::external_body]
fn parse_json(document: &str) -> (parsed: Option<serde_json::Value>)
    ensures
        match parsed {
            Some(value) => json_document(document@) == Some(json_texts(value)),
            None => json_document(document@) is None,
        },
{
    serde_json::from_str::<serde_json::Value>(document).ok()
}

/// `serde_json::Value::pointer` and `Value::as_str`: the text at a place of
/// a JSON value, as [`json_texts`] names it.
#[verifier::external_body]
fn text_at(value: &serde_json::Value, pointer: &str) -> (text: Option<String>)
    ensures
        opt_text(text) == text_of(json_texts(*value), pointer@),
{
    value.pointer(pointer).and_then(|found| found.as_str()).map(String::from)
}

/// The instructions that go to the model with a domain.
pub fn prompt(domain: &str) -> (text: String)
    ensures
        text@ == prompt_for(domain@),
{
    let mut text = String::from_str(PROMPT_BEFORE_DOMAIN);
    text.append(domain);
    text.append(PROMPT_AFTER_DOMAIN);
    text
}

/// Decides whether the model is asked: it is where the request comes with
/// an address that has a domain, and then about that domain. Without one
/// the producer answers at once, without an opinion.
pub fn begin(input: &InferenceInput) -> (start: Start<String>)
    ensures
        match start {
            Start::Ask(asked) => input.email is Some && domain_part(input.email->0@) == Some(
                asked@,
            ),
            Start::Done(signal) => (input.email is None || domain_part(input.email->0@) is None)
                && signal@ == SignalView::neutral(SignalSource::Domain) && signal.well_formed(),
        },
{
    match &input.email {
        Some(email) => match email_domain(email.as_str()) {
            Some(domain) => Start::Ask(String::from_str(domain)),
            None => Start::Done(InferenceSignal::new(SignalSource::Domain)),
        },
        None => Start::Done(InferenceSignal::new(SignalSource::Domain)),
    }
}

/// What a reply says of an organization: see [`fields_in`].
pub fn read_fields(reply: &str) -> (fields: Option<OrganizationFields>)
    ensures
        match fields {
            Some(f) => fields_in(reply@) == Some(
                (
                    opt_text(f.name),
                    opt_text(f.category),
                    opt_text(f.employee_count),
                    opt_text(f.employee_count_source),
                ),
            ),
            None => fields_in(reply@) is None,
        },
{
    match parse_json(reply) {
        Some(value) => Some(
            OrganizationFields {
                name: text_at(&value, "/name"),
                category: text_at(&value, "/category"),
                employee_count: text_at(&value, "/employee_count"),
                employee_count_source: text_at(&value, "/employee_count_source"),
            },
        ),
        None => None,
    }
}

/// The record of an organization from its domain and what a reply says of
/// it.
pub fn organization_from_fields(domain: &str, fields: OrganizationFields) -> (org:
    OrganizationIntelligence)
    ensures
        org.domain@ == domain@,
        org.name == fields.name,
        org.category == fields.category,
        org.employee_count == fields.employee_count,
        org.employee_count_source == fields.employee_count_source,
{
    OrganizationIntelligence {
        domain: String::from_str(domain),
        name: fields.name,
        category: fields.category,
        employee_count: fields.employee_count,
        employee_count_source: fields.employee_count_source,
    }
}

/// Reads the organization of a domain out of the response of the model:
/// [`enriched`] says which.
pub fn enrich(domain: &str, body: &str) -> (org: Option<OrganizationIntelligence>)
    ensures
        match org {
            Some(found) => enriched(domain@, body@) == Some(found@),
            None => enriched(domain@, body@) is None,
        },
{
    let content = match parse_json(body) {
        Some(response) => text_at(&response, CONTENT_POINTER),
        None => None,
    };
    match content {
        Some(content) => {
            let reply = strip_markdown(content.as_str());
            match read_fields(reply) {
                Some(fields) => Some(organization_from_fields(domain, fields)),
                None => None,
            }
        },
        None => None,
    }
}

fn or_unknown(field: &Option<String>) -> (text: &str)
    ensures
        text@ == text_or_unknown(opt_text(*field)),
{
    match field {
        Some(known) => known.as_str(),
        None => "unknown",
    }
}

/// Makes the signal of the producer from what was found for the domain:
/// [`finished`] says how.
pub fn finish(domain: &str, found: Option<OrganizationIntelligence>) -> (signal: InferenceSignal)
    ensures
        signal@ == finished(
            domain@,
            match found {
                Some(org) => Some(org@),
                None => None,
            },
        ),
        signal.well_formed(),
{
    let mut signal = InferenceSignal::new(SignalSource::Domain);
    match found {
        Some(org) => {
            let mut note = String::from_str("Domain ");
            note.append(domain);
            note.append(" enriched: ");
            note.append(or_unknown(&org.name));
            note.append(" (");
            note.append(or_unknown(&org.category));
            note.append(")");
            signal.reasoning.push(note);
            signal.organization = Some(org);
            proof {
                assert(texts(signal.reasoning@) =~= seq![enriched_note(domain@, org@)]);
                assert(signal@.gender =~= SignalView::neutral(SignalSource::Domain).gender);
                assert(signal@.age =~= SignalView::neutral(SignalSource::Domain).age);
            }
        },
        None => {},
    }
    signal
}

} // verus!

//! The producer that reads the name.
//!
//! It asks a chat model what the name and the address of a person say about
//! the gender and the ethnicity. Without a name and without an address it is
//! not asked at all.

pub mod parser;
pub mod prompt;

use vstd::prelude::*;
use vstd::string::StringExecFns;
use crate::llm::{
    model_name, note_unread, unread_note, ChatRequest, Content, Message, Reading, Start,
    TEMPERATURE,
};
use crate::onomast::parser::{apply_result, onomastic_applied, OnomasticResult};
use crate::onomast::prompt::{analyze, prompt_for};
use crate::probability::ONE;
use crate::signal::{InferenceInput, InferenceSignal, SignalView};
use crate::types::SignalSource;

verus! {

/// The text of an optional field; empty where the field is absent.
pub open spec fn text_or_empty(field: Option<String>) -> Seq<char> {
    match field {
        Some(text) => text@,
        None => Seq::empty(),
    }
}

/// The request is the one that asks about a name and an address: one
/// message of the user that holds the instructions.
pub open spec fn asks_about(request: ChatRequest, name: Seq<char>, email: Seq<char>) -> bool {
    &&& request.model@ == model_name()
    &&& request.temperature == TEMPERATURE
    &&& request.messages@.len() == 1
    &&& request.messages@[0].role@ == "user"@
    &&& request.messages@[0].content@.len() == 1
    &&& request.messages@[0].content@[0] matches Content::Text { text }
    &&& text@ == prompt_for(name, email)
}

/// The request that asks the model about a name and an address.
pub fn request(name: &str, email: &str) -> (request: ChatRequest)
    ensures
        asks_about(request, name@, email@),
{
    let mut content: Vec<Content> = Vec::new();
    content.push(Content::Text { text: analyze(name, email) });
    let mut messages: Vec<Message> = Vec::new();
    messages.push(Message { role: String::from_str("user"), content });
    ChatRequest { model: String::from_str("gpt-4o-mini"), messages, temperature: TEMPERATURE }
}

/// Decides whether the model is asked: it is where the request comes with a
/// name or with an address, and then about both, with an empty text in
/// place of the one that is absent. Without either the producer answers at
/// once, without an opinion.
pub fn begin(input: &InferenceInput) -> (start: Start<ChatRequest>)
    ensures
        match start {
            Start::Ask(request) => (input.name is Some || input.email is Some) && asks_about(
                request,
                text_or_empty(input.name),
                text_or_empty(input.email),
            ),
            Start::Done(signal) => input.name is None && input.email is None && signal@
                == SignalView::neutral(SignalSource::Onomastic) && signal.well_formed(),
        },
{
    if input.name.is_none() && input.email.is_none() {
        return Start::Done(InferenceSignal::new(SignalSource::Onomastic));
    }
    let empty = String::new();
    let name: &str = match &input.name {
        Some(text) => text.as_str(),
        None => empty.as_str(),
    };
    let email: &str = match &input.email {
        Some(text) => text.as_str(),
        None => empty.as_str(),
    };
    Start::Ask(request(name, email))
}

/// The signal after the reply of the model was read: with the result
/// applied to it, or with a note on the reply that could not be read.
pub open spec fn concluded(
    before: SignalView,
    content: Seq<char>,
    reading: Reading<OnomasticResult>,
) -> SignalView {
    match reading {
        Reading::Parsed(result) => onomastic_applied(before, result),
        Reading::Failed(why) => SignalView {
            reasoning: before.reasoning.push(unread_note(why@, content)),
            ..before
        },
    }
}

/// Completes the signal once the reply of the model was read:
/// [`concluded`] says how.
pub fn conclude(signal: InferenceSignal, content: &str, reading: Reading<OnomasticResult>) -> (done:
    InferenceSignal)
    ensures
        done@ == concluded(signal@, content@, reading),
        signal.well_formed() && (reading matches Reading::Parsed(result) ==> result.gender_male
            + result.gender_female <= ONE && result.ethnicity_confidence <= ONE)
            ==> done.well_formed(),
{
    let mut done = signal;
    match reading {
        Reading::Parsed(result) => {
            apply_result(&mut done, result);
        },
        Reading::Failed(why) => {
            note_unread(&mut done, why.as_str(), content);
        },
    }
    done
}

} // verus!

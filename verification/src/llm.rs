//! The exchange with a chat model that a producer asks: the request that
//! goes out, the response that comes back, and what a producer makes of
//! every way in which the exchange can end.
//!
//! The producers never fail their caller. Where the request cannot be sent,
//! the response cannot be read, or the model reports an error, the signal
//! stays without an opinion and its reasoning says what went wrong.

use vstd::prelude::*;
use vstd::string::StringExecFns;
use crate::signal::{texts, InferenceSignal, SignalView};
use crate::text::{strip_markdown, stripped_markdown};
use crate::types::SignalSource;

verus! {

/// The model that the producers ask.
pub open spec fn model_name() -> Seq<char> {
    "gpt-4o-mini"@
}

/// The temperature that the producers ask with: 0.1, in billionths.
pub const TEMPERATURE: u32 = 100_000_000;

#[derive(Debug, Clone, PartialEq, Eq)]
pub struct ImageUrl {
    pub url: String,
    pub detail: String,
}

/// One part of a message: a text or a picture.
#[derive(Debug, Clone, PartialEq, Eq)]
pub enum Content {
    Text { text: String },
    ImageUrl { image_url: ImageUrl },
}

#[derive(Debug, Clone, PartialEq, Eq)]
pub struct Message {
    pub role: String,
    pub content: Vec<Content>,
}

/// What is sent to the model.
#[derive(Debug, Clone, PartialEq, Eq)]
pub struct ChatRequest {
    pub model: String,
    pub messages: Vec<Message>,
    /// In billionths.
    pub temperature: u32,
}

#[derive(Debug, Clone, PartialEq, Eq)]
pub struct ResponseMessage {
    pub content: String,
}

#[derive(Debug, Clone, PartialEq, Eq)]
pub struct Choice {
    pub message: ResponseMessage,
}

#[derive(Debug, Clone, PartialEq, Eq)]
pub struct Usage {
    pub total_tokens: u32,
}

#[derive(Debug, Clone, PartialEq, Eq)]
pub struct ApiError {
    pub message: String,
}

/// What comes back from the model.
#[derive(Debug, Clone, PartialEq, Eq)]
pub struct ChatResponse {
    pub choices: Option<Vec<Choice>>,
    pub usage: Option<Usage>,
    pub error: Option<ApiError>,
}

/// How an exchange with the model ended.
#[derive(Debug, Clone, PartialEq, Eq)]
pub enum Exchange {
    /// The request could not be sent; the text says why.
    RequestFailed(String),
    /// The response could not be read; the text says why.
    Unreadable(String),
    /// The model answered.
    Answered(ChatResponse),
}

/// What a producer does with a request: it answers at once, without an
/// opinion, or it asks a question of type `Q`.
#[derive(Debug, Clone, PartialEq, Eq)]
pub enum Start<Q> {
    Done(InferenceSignal),
    Ask(Q),
}

/// What a producer does after an exchange.
#[derive(Debug, Clone, PartialEq, Eq)]
pub enum Step {
    /// The signal is complete.
    Done(InferenceSignal),
    /// The model gave a reply, here without its frame, that is still to be
    /// read into a result.
    Read { signal: InferenceSignal, content: String },
}

/// How the reading of a reply into a result of type `T` ended.
#[derive(Debug, Clone, PartialEq, Eq)]
pub enum Reading<T> {
    Parsed(T),
    /// The reply could not be read; the text says why.
    Failed(String),
}

/// The mathematical content of a [`Step`].
pub enum StepView {
    Done(SignalView),
    Read { signal: SignalView, content: Seq<char> },
}

impl View for Step {
    type V = StepView;

    open spec fn view(&self) -> StepView {
        match *self {
            Step::Done(signal) => StepView::Done(signal@),
            Step::Read { signal, content } => StepView::Read { signal: signal@, content: content@ },
        }
    }
}

/// The name of a producer in its notes.
pub open spec fn producer_label(source: SignalSource) -> Seq<char> {
    match source {
        SignalSource::Local => "Local"@,
        SignalSource::Vision => "Vision"@,
        SignalSource::Onomastic => "Onomastic"@,
        SignalSource::Domain => "Domain"@,
    }
}

/// A signal without an opinion that carries one note.
pub open spec fn noted(source: SignalSource, note: Seq<char>) -> SignalView {
    SignalView { reasoning: seq![note], ..SignalView::neutral(source) }
}

/// The tokens that a response reports.
pub open spec fn tokens_reported(response: ChatResponse) -> Option<nat> {
    match response.usage {
        Some(usage) => Some(usage.total_tokens as nat),
        None => None,
    }
}

/// What a producer makes of an exchange.
pub open spec fn received(source: SignalSource, exchange: Exchange) -> StepView {
    match exchange {
        Exchange::RequestFailed(why) => StepView::Done(
            noted(source, producer_label(source) + " request failed: "@ + why@),
        ),
        Exchange::Unreadable(why) => StepView::Done(
            noted(source, "Failed to parse response: "@ + why@),
        ),
        Exchange::Answered(response) => match response.error {
            Some(error) => StepView::Done(noted(source, "API error: "@ + error.message@)),
            None => {
                let signal = SignalView {
                    tokens_used: tokens_reported(response),
                    ..SignalView::neutral(source)
                };
                match response.choices {
                    Some(choices) => if choices@.len() > 0 {
                        StepView::Read {
                            signal,
                            content: stripped_markdown(choices@[0].message.content@),
                        }
                    } else {
                        StepView::Done(signal)
                    },
                    None => StepView::Done(signal),
                }
            },
        },
    }
}

/// The note on a reply that could not be read.
pub open spec fn unread_note(why: Seq<char>, content: Seq<char>) -> Seq<char> {
    "Parse error: "@ + why + " - Raw: "@ + content
}

/// The name of a producer in its notes.
pub fn label_of(source: SignalSource) -> (label: &'static str)
    ensures
        label@ == producer_label(source),
{
    match source {
        SignalSource::Local => "Local",
        SignalSource::Vision => "Vision",
        SignalSource::Onomastic => "Onomastic",
        SignalSource::Domain => "Domain",
    }
}

/// A signal without an opinion that carries one note.
pub fn signal_with_note(source: SignalSource, note: String) -> (signal: InferenceSignal)
    ensures
        signal@ == noted(source, note@),
        signal.well_formed(),
{
    let mut signal = InferenceSignal::new(source);
    signal.reasoning.push(note);
    proof {
        assert(texts(signal.reasoning@) =~= seq![note@]);
        assert(signal@.gender =~= SignalView::neutral(source).gender);
        assert(signal@.age =~= SignalView::neutral(source).age);
    }
    signal
}

/// Decides what a producer does after an exchange: [`received`] says what.
pub fn receive(source: SignalSource, exchange: Exchange) -> (step: Step)
    ensures
        step@ == received(source, exchange),
        match step {
            Step::Done(signal) => signal.well_formed(),
            Step::Read { signal, content } => signal.well_formed(),
        },
{
    match exchange {
        Exchange::RequestFailed(why) => {
            let mut note = String::from_str(label_of(source));
            note.append(" request failed: ");
            note.append(why.as_str());
            Step::Done(signal_with_note(source, note))
        },
        Exchange::Unreadable(why) => {
            let mut note = String::from_str("Failed to parse response: ");
            note.append(why.as_str());
            Step::Done(signal_with_note(source, note))
        },
        Exchange::Answered(response) => {
            match response.error {
                Some(error) => {
                    let mut note = String::from_str("API error: ");
                    note.append(error.message.as_str());
                    Step::Done(signal_with_note(source, note))
                },
                None => {
                    let mut signal = InferenceSignal::new(source);
                    signal.tokens_used = match response.usage {
                        Some(usage) => Some(usage.total_tokens),
                        None => None,
                    };
                    match response.choices {
                        Some(choices) => {
                            if choices.len() > 0 {
                                let content = String::from_str(
                                    strip_markdown(choices[0].message.content.as_str()),
                                );
                                Step::Read { signal, content }
                            } else {
                                Step::Done(signal)
                            }
                        },
                        None => Step::Done(signal),
                    }
                },
            }
        },
    }
}

/// Adds the note on a reply that could not be read to a signal.
pub fn note_unread(signal: &mut InferenceSignal, why: &str, content: &str)
    ensures
        final(signal)@ == (SignalView {
            reasoning: old(signal)@.reasoning.push(unread_note(why@, content@)),
            ..old(signal)@
        }),
        final(signal).well_formed() == old(signal).well_formed(),
{
    let mut note = String::from_str("Parse error: ");
    note.append(why);
    note.append(" - Raw: ");
    note.append(content);
    proof {
        assert(texts(signal.reasoning@.push(note)) =~= texts(signal.reasoning@).push(note@));
    }
    signal.reasoning.push(note);
}

} // verus!

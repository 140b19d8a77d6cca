//! The producer that looks at the profile picture.
//!
//! It asks a chat model for the gender and the age bracket of the person in
//! the picture. Without a picture it is not asked at all.

pub mod parser;
pub mod prompt;

use vstd::prelude::*;
use vstd::string::StringExecFns;
use crate::llm::{
    model_name, note_unread, unread_note, ChatRequest, Content, ImageUrl, Message, Reading,
    Start, TEMPERATURE,
};
use crate::probability::ONE;
use crate::signal::{InferenceInput, InferenceSignal, SignalView};
use crate::types::SignalSource;
use crate::vision::parser::{apply_result, vision_applied, VisionResult};
use crate::vision::prompt::{analyze_image, IMAGE_PROMPT};

verus! {

/// The request is the one that asks about the picture at `url`: one message
/// of the user, with the instructions and the picture in low detail.
pub open spec fn asks_about(request: ChatRequest, url: Seq<char>) -> bool {
    &&& request.model@ == model_name()
    &&& request.temperature == TEMPERATURE
    &&& request.messages@.len() == 1
    &&& request.messages@[0].role@ == "user"@
    &&& request.messages@[0].content@.len() == 2
    &&& request.messages@[0].content@[0] matches Content::Text { text }
    &&& text@ == IMAGE_PROMPT@
    &&& request.messages@[0].content@[1] matches Content::ImageUrl { image_url }
    &&& image_url.url@ == url
    &&& image_url.detail@ == "low"@
}

/// The request that asks the model about a picture.
pub fn request(url: &str) -> (request: ChatRequest)
    ensures
        asks_about(request, url@),
{
    let mut content: Vec<Content> = Vec::new();
    content.push(Content::Text { text: analyze_image() });
    content.push(
        Content::ImageUrl {
            image_url: ImageUrl { url: String::from_str(url), detail: String::from_str("low") },
        },
    );
    let mut messages: Vec<Message> = Vec::new();
    messages.push(Message { role: String::from_str("user"), content });
    ChatRequest { model: String::from_str("gpt-4o-mini"), messages, temperature: TEMPERATURE }
}

/// Decides whether the model is asked: it is where the request comes with a
/// profile picture, and then about that picture. Without a picture the
/// producer answers at once, without an opinion.
pub fn begin(input: &InferenceInput) -> (start: Start<ChatRequest>)
    ensures
        match start {
            Start::Ask(request) => input.profile_pic_url is Some && asks_about(
                request,
                input.profile_pic_url->0@,
            ),
            Start::Done(signal) => input.profile_pic_url is None && signal@ == SignalView::neutral(
                SignalSource::Vision,
            ) && signal.well_formed(),
        },
{
    match &input.profile_pic_url {
        Some(url) => Start::Ask(request(url.as_str())),
        None => Start::Done(InferenceSignal::new(SignalSource::Vision)),
    }
}

/// The signal after the reply of the model was read: with the result
/// applied to it, or with a note on the reply that could not be read.
pub open spec fn concluded(
    before: SignalView,
    content: Seq<char>,
    reading: Reading<VisionResult>,
) -> SignalView {
    match reading {
        Reading::Parsed(result) => vision_applied(before, result),
        Reading::Failed(why) => SignalView {
            reasoning: before.reasoning.push(unread_note(why@, content)),
            ..before
        },
    }
}

/// Completes the signal once the reply of the model was read:
/// [`concluded`] says how.
pub fn conclude(signal: InferenceSignal, content: &str, reading: Reading<VisionResult>) -> (done:
    InferenceSignal)
    ensures
        done@ == concluded(signal@, content@, reading),
        signal.well_formed() && (reading matches Reading::Parsed(result) ==> result.gender_male
            + result.gender_female <= ONE) ==> done.well_formed(),
{
    let mut done = signal;
    match reading {
        Reading::Parsed(result) => {
            apply_result(&mut done, result);
        },
        Reading::Failed(why) => {
            note_unread(&mut done, why.as_str(), content);
        },
    }
    done
}

} // verus!

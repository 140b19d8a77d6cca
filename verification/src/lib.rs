//! Signal fusion for demographic inference.
//!
//! Several independent producers each look at one request (an email address,
//! a name, a profile picture, a browsing history) and each returns a partial,
//! probabilistic [`InferenceSignal`]. This crate holds the data model of such
//! a signal, the merge that reconciles a list of them into one answer
//! ([`fuse`]), the confidence tiers shown to clients, and the diagnostic
//! record derived from a request.
//!
//! Probabilities are fixed-point numbers: a `u32` counts billionths, and
//! [`ONE`] stands for certainty. A mean of distributions is made of whole
//! shares ([`shares`]): each component is within one billionth of the exact
//! mean, and the mean of distributions that add up to one adds up to one.
//!
//! - [`signal`], [`types`], [`probability`], [`shares`]: the data model;
//! - [`fusion`]: the merge, and [`laws`]: what holds of every merge;
//! - [`dto`], [`metric`]: the views of a fused signal and the diagnostic
//!   record;
//! - [`local`], [`vision`], [`onomast`], [`domain`]: what each producer
//!   decides, with [`llm`] for the exchange with a chat model;
//! - [`dispatch`]: which producers are asked, and the way from their signals
//!   to a response;
//! - [`prompt`], [`model`]: the mode in which one question answers
//!   everything;
//! - [`text`], [`clock`]: the handling of text and the reading of the time
//!   that the others share.
//!
//! Nothing here talks to the network: a producer that asks a model hands
//! the question out and takes the outcome of the exchange back.

pub mod clock;
pub mod dispatch;
pub mod domain;
pub mod dto;
pub mod fusion;
pub mod laws;
pub mod llm;
pub mod local;
pub mod metric;
pub mod model;
pub mod onomast;
pub mod probability;
pub mod shares;
pub mod prompt;
pub mod signal;
pub mod text;
pub mod types;
pub mod vision;

pub use dto::{AnalyzeRequest, Format, FuzzyResponse, InferResponse, QueryParams};
pub use fusion::{blend, can_fuse, fuse, fuse_borrowed};
pub use local::LocalAgent;
pub use metric::{build_metrics, AbstentionMetrics, InferenceMetrics, SourceMetrics};
pub use probability::{MEDIUM_THRESHOLD, ONE, STRONG_THRESHOLD};
pub use signal::{InferenceInput, InferenceSignal, OrganizationView, SignalView};
pub use text::strip_markdown;
pub use types::{AgeGroup, Confidence, Gender, OrganizationIntelligence, SignalSource};

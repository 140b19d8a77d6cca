//! The diagnostic record of a request: which inputs came with it, what each
//! producer contributed, what the fused answer abstains from, and what the
//! request cost.

use vstd::prelude::*;
use vstd::string::StringExecFns;
use crate::clock::now;
use crate::fusion::{max_latency, slowest, token_sum};
use crate::probability::ONE;
use crate::signal::{texts, InferenceInput, InferenceSignal};
use crate::types::SignalSource;

verus! {

/// What one producer added to a request.
#[derive(Debug, Clone, PartialEq, Eq)]
pub struct SourceMetrics {
    pub source: SignalSource,
    pub latency_ms: u64,
    pub tokens_used: Option<u32>,
    /// The attributes that the producer holds an opinion on.
    pub contributed: Vec<String>,
    /// In billionths.
    pub confidence: u32,
}

/// The attributes on which the fused answer holds no opinion.
#[derive(Debug, Clone, Copy, PartialEq, Eq, Structural)]
pub struct AbstentionMetrics {
    pub gender: bool,
    pub ethnicity: bool,
    pub age: bool,
}

#[derive(Debug, Clone, PartialEq, Eq)]
pub struct InferenceMetrics {
    pub request_id: String,
    pub timestamp: String,
    pub inputs_provided: Vec<String>,
    pub sources_used: Vec<SourceMetrics>,
    pub sources_agreed: bool,
    /// In billionths.
    pub fusion_confidence: u32,
    pub abstentions: AbstentionMetrics,
    pub edge_case: bool,
    pub total_tokens: u32,
    /// In billionths of a dollar.
    pub estimated_cost_usd: u32,
    pub total_latency_ms: u64,
}

/// The one name, or nothing.
pub open spec fn named_if(present: bool, name: Seq<char>) -> Seq<Seq<char>> {
    if present {
        seq![name]
    } else {
        Seq::empty()
    }
}

/// The names of the inputs that came with a request, in the order email,
/// name, profile picture, browsing history.
pub open spec fn inputs_provided(input: InferenceInput) -> Seq<Seq<char>> {
    named_if(input.email is Some, "email"@) + named_if(input.name is Some, "name"@) + named_if(
        input.profile_pic_url is Some,
        "profile_pic_url"@,
    ) + named_if(input.browsing_history is Some, "browsing_history"@)
}

/// The names of the attributes that a signal holds an opinion on, in the
/// order organization, birth year, gender, age, ethnicity.
pub open spec fn contributions(signal: InferenceSignal) -> Seq<Seq<char>> {
    named_if(signal.organization is Some, "organization"@) + named_if(
        signal.birth_year is Some,
        "birth_year"@,
    ) + named_if(signal.gender_opinion(), "gender"@) + named_if(signal.age_opinion(), "age"@)
        + named_if(signal.ethnicity is Some, "ethnicity"@)
}

/// What the record says of one producer is what its signal says.
pub open spec fn describes(metrics: SourceMetrics, signal: InferenceSignal) -> bool {
    &&& metrics.source == signal.source
    &&& metrics.latency_ms == signal.latency_ms
    &&& metrics.tokens_used == signal.tokens_used
    &&& texts(metrics.contributed@) == contributions(signal)
    &&& metrics.confidence == ONE
}

/// The attributes on which a fused signal holds no opinion.
pub open spec fn abstentions_of(fused: InferenceSignal) -> AbstentionMetrics {
    AbstentionMetrics {
        gender: !fused.gender_opinion(),
        ethnicity: fused.ethnicity is None,
        age: !fused.age_opinion(),
    }
}

/// The record is the one of the signals, of their fused signal and of the
/// request, whatever its identifier and its time.
pub open spec fn records(
    metrics: InferenceMetrics,
    signals: Seq<InferenceSignal>,
    fused: InferenceSignal,
    input: InferenceInput,
) -> bool {
    &&& texts(metrics.inputs_provided@) == inputs_provided(input)
    &&& metrics.sources_used@.len() == signals.len()
    &&& forall|i: int|
        0 <= i < signals.len() ==> describes(#[trigger] metrics.sources_used@[i], signals[i])
    &&& metrics.sources_agreed
    &&& metrics.fusion_confidence == ONE
    &&& metrics.abstentions == abstentions_of(fused)
    &&& !metrics.edge_case
    &&& metrics.total_tokens == token_sum(signals)
    &&& metrics.estimated_cost_usd == 0
    &&& metrics.total_latency_ms == max_latency(signals)
}

/// `uuid::Uuid::new_v4` in the form that `to_string` gives it: a random
/// identifier, written as 32 hexadecimal digits in five groups with a
/// hyphen between them. No more is known of it than its length. The call
/// fails where the system gives no random bytes.
#[verifier::external_body]
fn new_request_id() -> (id: String)
    ensures
        id@.len() == 36,
{
    uuid::Uuid::new_v4().to_string()
}

fn push_if(names: &mut Vec<String>, present: bool, name: &str)
    ensures
        texts(final(names)@) == texts(old(names)@) + named_if(present, name@),
{
    if present {
        let owned = String::from_str(name);
        proof {
            assert(texts(names@.push(owned)) =~= texts(names@) + named_if(present, name@));
        }
        names.push(owned);
    } else {
        proof {
            assert(texts(names@) =~= texts(names@) + named_if(present, name@));
        }
    }
}

/// The names of the inputs that came with a request.
pub fn list_inputs(input: &InferenceInput) -> (names: Vec<String>)
    ensures
        texts(names@) == inputs_provided(*input),
{
    let mut names: Vec<String> = Vec::new();
    proof {
        assert(texts(names@) =~= Seq::<Seq<char>>::empty());
    }
    push_if(&mut names, input.email.is_some(), "email");
    push_if(&mut names, input.name.is_some(), "name");
    push_if(&mut names, input.profile_pic_url.is_some(), "profile_pic_url");
    push_if(&mut names, input.browsing_history.is_some(), "browsing_history");
    proof {
        assert(texts(names@) =~= inputs_provided(*input));
    }
    names
}

/// What one producer added to a request, from its signal.
pub fn source_metrics(signal: &InferenceSignal) -> (metrics: SourceMetrics)
    ensures
        describes(metrics, *signal),
{
    let mut contributed: Vec<String> = Vec::new();
    proof {
        assert(texts(contributed@) =~= Seq::<Seq<char>>::empty());
    }
    push_if(&mut contributed, signal.organization.is_some(), "organization");
    push_if(&mut contributed, signal.birth_year.is_some(), "birth_year");
    push_if(&mut contributed, signal.has_gender_signal(), "gender");
    push_if(&mut contributed, signal.has_age_signal(), "age");
    push_if(&mut contributed, signal.ethnicity.is_some(), "ethnicity");
    proof {
        assert(texts(contributed@) =~= contributions(*signal));
    }
    SourceMetrics {
        source: signal.source,
        latency_ms: signal.latency_ms,
        tokens_used: signal.tokens_used,
        contributed,
        confidence: ONE,
    }
}

/// The tokens that the signals report, added up; none where the sum does
/// not fit the counter of the record.
pub fn count_tokens(signals: &Vec<InferenceSignal>) -> (total: Option<u32>)
    ensures
        match total {
            Some(tokens) => tokens == token_sum(signals@),
            None => token_sum(signals@) > u32::MAX,
        },
{
    let mut sum: u128 = 0;
    let mut i: usize = 0;
    while i < signals.len()
        invariant
            i <= signals.len(),
            sum == token_sum(signals@.take(i as int)),
            sum <= i * 0xFFFF_FFFF,
        decreases signals.len() - i,
    {
        proof {
            assert(signals@.take(i as int + 1).drop_last() =~= signals@.take(i as int));
        }
        match signals[i].tokens_used {
            Some(tokens) => {
                sum = sum + tokens as u128;
            },
            None => {},
        }
        i = i + 1;
    }
    proof {
        assert(signals@.take(i as int) =~= signals@);
    }
    if sum <= 0xFFFF_FFFF {
        Some(sum as u32)
    } else {
        None
    }
}

/// Puts the record of a request together from its signals, their fused
/// signal, the request itself, and the identifier and the time that the
/// record is to carry.
pub fn assemble_metrics(
    signals: &Vec<InferenceSignal>,
    fused: &InferenceSignal,
    input: &InferenceInput,
    request_id: String,
    timestamp: String,
) -> (metrics: InferenceMetrics)
    requires
        token_sum(signals@) <= u32::MAX,
    ensures
        metrics.request_id == request_id,
        metrics.timestamp == timestamp,
        records(metrics, signals@, *fused, *input),
{
    let mut sources_used: Vec<SourceMetrics> = Vec::new();
    let mut i: usize = 0;
    while i < signals.len()
        invariant
            i <= signals.len(),
            sources_used@.len() == i,
            forall|j: int| 0 <= j < i ==> describes(#[trigger] sources_used@[j], signals@[j]),
        decreases signals.len() - i,
    {
        sources_used.push(source_metrics(&signals[i]));
        i = i + 1;
    }
    let total_tokens: u32 = match count_tokens(signals) {
        Some(tokens) => tokens,
        None => vstd::pervasive::unreached(),
    };
    InferenceMetrics {
        request_id,
        timestamp,
        inputs_provided: list_inputs(input),
        sources_used,
        sources_agreed: true,
        fusion_confidence: ONE,
        abstentions: AbstentionMetrics {
            gender: !fused.has_gender_signal(),
            ethnicity: fused.ethnicity.is_none(),
            age: !fused.has_age_signal(),
        },
        edge_case: false,
        total_tokens,
        estimated_cost_usd: 0,
        total_latency_ms: slowest(signals),
    }
}

/// Derives the record of a request from its signals, their fused signal and
/// the request itself, under a fresh identifier and with the current time.
pub fn build_metrics(
    signals: &Vec<InferenceSignal>,
    fused: &InferenceSignal,
    input: &InferenceInput,
) -> (metrics: InferenceMetrics)
    requires
        token_sum(signals@) <= u32::MAX,
    ensures
        records(metrics, signals@, *fused, *input),
        metrics.request_id@.len() == 36,
{
    assemble_metrics(signals, fused, input, new_request_id(), now().timestamp)
}

} // verus!

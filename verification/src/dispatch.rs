//! From a request to a response: which producers are asked, and what is
//! made of their signals.
//!
//! The producers that apply to a request run side by side, and all of them
//! are waited for: the merge needs every opinion there is. The signals come
//! back in the order in which the producers were named.

use vstd::prelude::*;
use crate::dto::{FuzzyResponse, InferResponse};
use crate::fusion::{fuse_borrowed, fused, token_sum};
use crate::metric::{build_metrics, count_tokens, records, InferenceMetrics};
use crate::signal::{InferenceInput, InferenceSignal};
use crate::types::SignalSource;
use vstd::std_specs::convert::FromSpec;

verus! {

/// Whether a producer applies to a request. The producer that looks at the
/// picture applies where there is a picture; every other producer applies
/// always, and answers without an opinion where it finds nothing to work
/// from.
pub open spec fn applicable(source: SignalSource, input: InferenceInput) -> bool {
    match source {
        SignalSource::Vision => input.profile_pic_url is Some,
        _ => true,
    }
}

/// The test that picks the producers that apply to a request.
pub open spec fn applies_to(input: InferenceInput) -> spec_fn(SignalSource) -> bool {
    |source: SignalSource| applicable(source, input)
}

/// The producers that are asked: those of the configured ones that apply
/// to the request, in their order.
pub open spec fn planned(configured: Seq<SignalSource>, input: InferenceInput) -> Seq<
    SignalSource,
> {
    configured.filter(applies_to(input))
}

/// Whether a producer applies to a request.
pub fn is_applicable(source: SignalSource, input: &InferenceInput) -> (applies: bool)
    ensures
        applies == applicable(source, *input),
{
    match source {
        SignalSource::Vision => input.profile_pic_url.is_some(),
        _ => true,
    }
}

/// Picks the producers that are asked for a request: see [`planned`].
pub fn plan(configured: &Vec<SignalSource>, input: &InferenceInput) -> (asked: Vec<SignalSource>)
    ensures
        asked@ == planned(configured@, *input),
{
    let mut asked: Vec<SignalSource> = Vec::new();
    let mut i: usize = 0;
    proof {
        reveal(Seq::filter);
        assert(configured@.take(0).filter(applies_to(*input)) =~= Seq::<SignalSource>::empty());
    }
    while i < configured.len()
        invariant
            i <= configured.len(),
            asked@ == configured@.take(i as int).filter(applies_to(*input)),
        decreases configured.len() - i,
    {
        proof {
            reveal(Seq::filter);
            assert(configured@.take(i as int + 1).drop_last() =~= configured@.take(i as int));
        }
        if is_applicable(configured[i], input) {
            asked.push(configured[i]);
        }
        i = i + 1;
    }
    proof {
        assert(configured@.take(i as int) =~= configured@);
    }
    asked
}

/// The producers behind the fuzzy view: the local one, the one that reads
/// the name, and the one that looks at the picture.
pub fn fuzzy_producers() -> (configured: Vec<SignalSource>)
    ensures
        configured@ == seq![SignalSource::Local, SignalSource::Onomastic, SignalSource::Vision],
{
    let mut configured: Vec<SignalSource> = Vec::new();
    configured.push(SignalSource::Local);
    configured.push(SignalSource::Onomastic);
    configured.push(SignalSource::Vision);
    proof {
        assert(configured@ =~= seq![
            SignalSource::Local,
            SignalSource::Onomastic,
            SignalSource::Vision,
        ]);
    }
    configured
}

/// The producers behind the raw view: the local one and the one that looks
/// at the picture.
pub fn raw_producers() -> (configured: Vec<SignalSource>)
    ensures
        configured@ == seq![SignalSource::Local, SignalSource::Vision],
{
    let mut configured: Vec<SignalSource> = Vec::new();
    configured.push(SignalSource::Local);
    configured.push(SignalSource::Vision);
    proof {
        assert(configured@ =~= seq![SignalSource::Local, SignalSource::Vision]);
    }
    configured
}

/// Whether the signals of a request can be answered: the tokens that they
/// report fit the counter of the diagnostic record.
pub fn can_respond(signals: &Vec<InferenceSignal>) -> (fits: bool)
    ensures
        fits == (token_sum(signals@) <= u32::MAX),
{
    count_tokens(signals).is_some()
}

/// Whether the record is the one of the signals and of a signal that holds
/// what fusing them gives.
pub open spec fn records_fusion(
    metrics: InferenceMetrics,
    signals: Seq<InferenceSignal>,
    input: InferenceInput,
) -> bool {
    exists|result: InferenceSignal|
        result@ == fused(signals) && #[trigger] records(metrics, signals, result, input)
}

/// The raw view of the fused signals of a request: the fused signal number
/// for number, with the diagnostic record where it is asked for.
pub fn raw_response(
    signals: &Vec<InferenceSignal>,
    input: &InferenceInput,
    include_metrics: bool,
) -> (response: InferResponse)
    requires
        token_sum(signals@) <= u32::MAX,
    ensures
        exists|result: InferenceSignal|
            result@ == fused(signals@) && response == (InferResponse {
                metrics: response.metrics,
                ..#[trigger] InferResponse::from_spec(result)
            }),
        include_metrics <==> response.metrics is Some,
        include_metrics ==> records_fusion(response.metrics->0, signals@, *input),
{
    let result = fuse_borrowed(signals);
    let metrics = if include_metrics {
        Some(build_metrics(signals, &result, input))
    } else {
        None
    };
    let ghost kept = result;
    let plain = InferResponse::from(result);
    let response = InferResponse { metrics, ..plain };
    proof {
        assert(response == (InferResponse {
            metrics: response.metrics,
            ..InferResponse::from_spec(kept)
        }));
        if include_metrics {
            assert(records(response.metrics->0, signals@, kept, *input));
        }
    }
    response
}

/// The fuzzy view of the fused signals of a request: the most probable
/// label of each attribute with the tier of its probability, with the
/// diagnostic record where it is asked for.
pub fn fuzzy_response(
    signals: &Vec<InferenceSignal>,
    input: &InferenceInput,
    include_metrics: bool,
) -> (response: FuzzyResponse)
    requires
        token_sum(signals@) <= u32::MAX,
    ensures
        exists|result: InferenceSignal|
            result@ == fused(signals@) && response == (FuzzyResponse {
                metrics: response.metrics,
                ..#[trigger] FuzzyResponse::from_spec(result)
            }),
        include_metrics <==> response.metrics is Some,
        include_metrics ==> records_fusion(response.metrics->0, signals@, *input),
{
    let result = fuse_borrowed(signals);
    let metrics = if include_metrics {
        Some(build_metrics(signals, &result, input))
    } else {
        None
    };
    let ghost kept = result;
    let plain = FuzzyResponse::from(result);
    let response = FuzzyResponse { metrics, ..plain };
    proof {
        assert(response == (FuzzyResponse {
            metrics: response.metrics,
            ..FuzzyResponse::from_spec(kept)
        }));
        if include_metrics {
            assert(records(response.metrics->0, signals@, kept, *input));
        }
    }
    response
}

} // verus!

//! What a request brings and the two views of a fused signal that a
//! response can carry: the raw view with every number, and the fuzzy view
//! with one label for each attribute and the tier of its confidence.

use vstd::prelude::*;
use crate::metric::InferenceMetrics;
use crate::probability::as_nats;
use crate::signal::{InferenceInput, InferenceSignal};
use crate::types::{AgeGroup, Confidence, Gender, OrganizationIntelligence};

verus! {

/// The body of a request.
#[derive(Debug, Clone, PartialEq, Eq)]
pub struct AnalyzeRequest {
    pub email: Option<String>,
    pub name: Option<String>,
    pub profile_pic_url: Option<String>,
    pub browsing_history: Option<Vec<String>>,
}

/// The view that a response carries.
#[derive(Debug, Clone, Copy, PartialEq, Eq, Structural)]
pub enum Format {
    Raw,
    Fuzzy,
}

impl Default for Format {
    fn default() -> (format: Format)
        ensures
            format == Format::Fuzzy,
    {
        Format::Fuzzy
    }
}

/// The options of a request.
#[derive(Debug, Clone, Copy, PartialEq, Eq, Structural)]
pub struct QueryParams {
    /// Asks for a response without the diagnostic record.
    pub minimal: Option<bool>,
    pub format: Format,
}

impl AnalyzeRequest {
    /// What the producers get to see of the request: all of it.
    pub fn into_input(self) -> (input: InferenceInput)
        ensures
            input.email == self.email,
            input.name == self.name,
            input.profile_pic_url == self.profile_pic_url,
            input.browsing_history == self.browsing_history,
    {
        InferenceInput {
            email: self.email,
            name: self.name,
            profile_pic_url: self.profile_pic_url,
            browsing_history: self.browsing_history,
        }
    }
}

impl QueryParams {
    /// Whether the response carries the diagnostic record: it does unless
    /// the request asks for a minimal response.
    pub fn include_metrics(&self) -> (wanted: bool)
        ensures
            wanted == (self.minimal != Some(true)),
    {
        match self.minimal {
            Some(minimal) => !minimal,
            None => true,
        }
    }
}

/// The raw view: the fused signal number for number.
#[derive(Debug, Clone, PartialEq, Eq)]
pub struct InferResponse {
    pub gender_male: u32,
    pub gender_female: u32,
    pub gender_other: u32,
    pub ethnicity: Option<String>,
    pub ethnicity_confidence: u32,
    pub age_group_under_18: u32,
    pub age_group_18_24: u32,
    pub age_group_25_34: u32,
    pub age_group_35_44: u32,
    pub age_group_45_54: u32,
    pub age_group_55_64: u32,
    pub age_group_65_plus: u32,
    pub birth_year: Option<u16>,
    pub organization: Option<OrganizationIntelligence>,
    pub reasoning: Vec<String>,
    pub metrics: Option<InferenceMetrics>,
}

/// The fuzzy view: for each attribute the label that is most probable and
/// the tier of its probability.
#[derive(Debug, Clone, PartialEq, Eq)]
pub struct FuzzyResponse {
    pub gender: Gender,
    pub gender_confidence: Confidence,
    pub ethnicity: Option<String>,
    pub ethnicity_confidence: Confidence,
    pub age_group: Option<AgeGroup>,
    pub age_group_confidence: Confidence,
    pub organization: Option<OrganizationIntelligence>,
    pub reasoning: Vec<String>,
    pub metrics: Option<InferenceMetrics>,
}

/// The gender that is most probable, with its probability. Among equals
/// the later in the order male, female, undetermined wins.
pub open spec fn likeliest_gender(signal: InferenceSignal) -> (Gender, nat) {
    if signal.gender_other >= signal.gender_female && signal.gender_other >= signal.gender_male {
        (Gender::Undetermined, signal.gender_other as nat)
    } else if signal.gender_female >= signal.gender_male {
        (Gender::Female, signal.gender_female as nat)
    } else {
        (Gender::Male, signal.gender_male as nat)
    }
}

/// The gender of the fuzzy view and its tier: the most probable gender;
/// undetermined, without confidence, where the signal holds no opinion.
pub open spec fn resolved_gender(signal: InferenceSignal) -> (Gender, Confidence) {
    let (gender, probability) = likeliest_gender(signal);
    if probability == 0 {
        (Gender::Undetermined, Confidence::Absent)
    } else {
        (gender, Confidence::of_probability(probability))
    }
}

/// The position of the highest number; among equals the last.
pub open spec fn last_highest(d: Seq<nat>) -> int
    decreases d.len(),
{
    if d.len() <= 1 {
        0
    } else {
        let before = last_highest(d.drop_last());
        if d.last() >= d[before] {
            d.len() - 1
        } else {
            before
        }
    }
}

/// The age bracket of the fuzzy view and its tier: the most probable
/// bracket, the oldest among equals; none, without confidence, where the
/// signal holds no opinion.
pub open spec fn resolved_age_group(signal: InferenceSignal) -> (Option<AgeGroup>, Confidence) {
    let at = last_highest(signal.age());
    let probability = signal.age()[at];
    if probability == 0 {
        (None, Confidence::Absent)
    } else {
        (Some(AgeGroup::at_position(at)), Confidence::of_probability(probability))
    }
}

/// The gender of the fuzzy view and its tier: see [`resolved_gender`].
pub fn resolve_gender(signal: &InferenceSignal) -> (resolved: (Gender, Confidence))
    ensures
        resolved == resolved_gender(*signal),
{
    let mut gender = Gender::Male;
    let mut probability: u32 = signal.gender_male;
    if signal.gender_female >= probability {
        gender = Gender::Female;
        probability = signal.gender_female;
    }
    if signal.gender_other >= probability {
        gender = Gender::Undetermined;
        probability = signal.gender_other;
    }
    if probability == 0 {
        (Gender::Undetermined, Confidence::Absent)
    } else {
        (gender, Confidence::from_probability(probability))
    }
}

/// The age bracket of the fuzzy view and its tier: see
/// [`resolved_age_group`].
pub fn resolve_age_group(signal: &InferenceSignal) -> (resolved: (Option<AgeGroup>, Confidence))
    ensures
        resolved == resolved_age_group(*signal),
{
    let probs = signal.age_probs();
    let ghost d = signal.age();
    let mut at: usize = 0;
    let mut k: usize = 1;
    proof {
        assert(d.take(1).len() == 1);
    }
    while k < 7
        invariant
            1 <= k <= 7,
            at < k,
            d == signal.age(),
            as_nats(probs@) == d,
            at == last_highest(d.take(k as int)),
        decreases 7 - k,
    {
        proof {
            assert(d.take(k as int + 1).drop_last() =~= d.take(k as int));
            assert(as_nats(probs@)[k as int] == d[k as int]);
            assert(as_nats(probs@)[at as int] == d[at as int]);
        }
        if probs[k] >= probs[at] {
            at = k;
        }
        k = k + 1;
    }
    proof {
        assert(d.take(7) =~= d);
        assert(as_nats(probs@)[at as int] == d[at as int]);
    }
    let probability: u32 = probs[at];
    if probability == 0 {
        (None, Confidence::Absent)
    } else {
        (Some(AgeGroup::from_index(at)), Confidence::from_probability(probability))
    }
}

impl vstd::std_specs::convert::FromSpecImpl<InferenceSignal> for InferResponse {
    open spec fn obeys_from_spec() -> bool {
        true
    }

    open spec fn from_spec(s: InferenceSignal) -> InferResponse {
        InferResponse {
            gender_male: s.gender_male,
            gender_female: s.gender_female,
            gender_other: s.gender_other,
            ethnicity: s.ethnicity,
            ethnicity_confidence: s.ethnicity_confidence,
            age_group_under_18: s.age_group_under_18,
            age_group_18_24: s.age_group_18_24,
            age_group_25_34: s.age_group_25_34,
            age_group_35_44: s.age_group_35_44,
            age_group_45_54: s.age_group_45_54,
            age_group_55_64: s.age_group_55_64,
            age_group_65_plus: s.age_group_65_plus,
            birth_year: s.birth_year,
            organization: s.organization,
            reasoning: s.reasoning,
            metrics: None,
        }
    }
}

impl From<InferenceSignal> for InferResponse {
    /// The raw view of a fused signal, without a diagnostic record.
    fn from(s: InferenceSignal) -> (response: InferResponse) {
        InferResponse {
            gender_male: s.gender_male,
            gender_female: s.gender_female,
            gender_other: s.gender_other,
            ethnicity: s.ethnicity,
            ethnicity_confidence: s.ethnicity_confidence,
            age_group_under_18: s.age_group_under_18,
            age_group_18_24: s.age_group_18_24,
            age_group_25_34: s.age_group_25_34,
            age_group_35_44: s.age_group_35_44,
            age_group_45_54: s.age_group_45_54,
            age_group_55_64: s.age_group_55_64,
            age_group_65_plus: s.age_group_65_plus,
            birth_year: s.birth_year,
            organization: s.organization,
            reasoning: s.reasoning,
            metrics: None,
        }
    }
}

impl vstd::std_specs::convert::FromSpecImpl<InferenceSignal> for FuzzyResponse {
    open spec fn obeys_from_spec() -> bool {
        true
    }

    open spec fn from_spec(s: InferenceSignal) -> FuzzyResponse {
        FuzzyResponse {
            gender: resolved_gender(s).0,
            gender_confidence: resolved_gender(s).1,
            ethnicity: s.ethnicity,
            ethnicity_confidence: Confidence::of_probability(s.ethnicity_confidence as nat),
            age_group: resolved_age_group(s).0,
            age_group_confidence: resolved_age_group(s).1,
            organization: s.organization,
            reasoning: s.reasoning,
            metrics: None,
        }
    }
}

impl From<InferenceSignal> for FuzzyResponse {
    /// The fuzzy view of a fused signal, without a diagnostic record.
    fn from(s: InferenceSignal) -> (response: FuzzyResponse) {
        let gender = resolve_gender(&s);
        let age_group = resolve_age_group(&s);
        FuzzyResponse {
            gender: gender.0,
            gender_confidence: gender.1,
            ethnicity: s.ethnicity,
            ethnicity_confidence: Confidence::from_probability(s.ethnicity_confidence),
            age_group: age_group.0,
            age_group_confidence: age_group.1,
            organization: s.organization,
            reasoning: s.reasoning,
            metrics: None,
        }
    }
}

impl InferResponse {
    /// Attaches the diagnostic record that `f` makes where `condition`
    /// holds, and leaves the response as it is where it does not; `f` is
    /// then not called.
    pub fn with_metrics_if<F: FnOnce() -> InferenceMetrics>(
        self,
        condition: bool,
        f: F,
    ) -> (response: InferResponse)
        requires
            condition ==> f.requires(()),
        ensures
            condition ==> response.metrics is Some && f.ensures((), response.metrics->0),
            !condition ==> response.metrics == self.metrics,
            response == (InferResponse { metrics: response.metrics, ..self }),
    {
        let mut response = self;
        if condition {
            response.metrics = Some(f());
        }
        response
    }
}

impl FuzzyResponse {
    /// Attaches the diagnostic record that `f` makes where `condition`
    /// holds, and leaves the response as it is where it does not; `f` is
    /// then not called.
    pub fn with_metrics_if<F: FnOnce() -> InferenceMetrics>(
        self,
        condition: bool,
        f: F,
    ) -> (response: FuzzyResponse)
        requires
            condition ==> f.requires(()),
        ensures
            condition ==> response.metrics is Some && f.ensures((), response.metrics->0),
            !condition ==> response.metrics == self.metrics,
            response == (FuzzyResponse { metrics: response.metrics, ..self }),
    {
        let mut response = self;
        if condition {
            response.metrics = Some(f());
        }
        response
    }
}

} // verus!

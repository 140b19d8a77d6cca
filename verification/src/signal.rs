//! The request that producers look at and the signal that each returns.

use vstd::prelude::*;
use crate::probability::{
    as_nats, has_opinion, lemma_total_of_seven, lemma_total_of_three, total, well_formed,
};
use crate::types::{OrganizationIntelligence, SignalSource};

verus! {

/// The mathematical content of an optional string.
pub open spec fn opt_text(s: Option<String>) -> Option<Seq<char>> {
    match s {
        Some(text) => Some(text@),
        None => None,
    }
}

/// The mathematical content of a list of strings.
pub open spec fn texts(lines: Seq<String>) -> Seq<Seq<char>> {
    Seq::new(lines.len(), |i: int| lines[i]@)
}

/// The mathematical content of an [`OrganizationIntelligence`].
pub struct OrganizationView {
    pub domain: Seq<char>,
    pub name: Option<Seq<char>>,
    pub category: Option<Seq<char>>,
    pub employee_count: Option<Seq<char>>,
    pub employee_count_source: Option<Seq<char>>,
}

impl View for OrganizationIntelligence {
    type V = OrganizationView;

    open spec fn view(&self) -> OrganizationView {
        OrganizationView {
            domain: self.domain@,
            name: opt_text(self.name),
            category: opt_text(self.category),
            employee_count: opt_text(self.employee_count),
            employee_count_source: opt_text(self.employee_count_source),
        }
    }
}

/// The mathematical content of an optional organization.
pub open spec fn opt_organization(o: Option<OrganizationIntelligence>) -> Option<OrganizationView> {
    match o {
        Some(org) => Some(org@),
        None => None,
    }
}

fn clone_opt_text(s: &Option<String>) -> (copy: Option<String>)
    ensures
        copy == *s,
{
    match s {
        Some(text) => Some(text.clone()),
        None => None,
    }
}

impl OrganizationIntelligence {
    /// A record that knows the domain and nothing else.
    pub fn bare(domain: String) -> (org: OrganizationIntelligence)
        ensures
            org.domain == domain,
            org.name is None,
            org.category is None,
            org.employee_count is None,
            org.employee_count_source is None,
    {
        OrganizationIntelligence {
            domain,
            name: None,
            category: None,
            employee_count: None,
            employee_count_source: None,
        }
    }

    /// A copy that is equal to the record in every field.
    pub fn duplicate(&self) -> (copy: OrganizationIntelligence)
        ensures
            copy == *self,
    {
        OrganizationIntelligence {
            domain: self.domain.clone(),
            name: clone_opt_text(&self.name),
            category: clone_opt_text(&self.category),
            employee_count: clone_opt_text(&self.employee_count),
            employee_count_source: clone_opt_text(&self.employee_count_source),
        }
    }
}

/// What is known about the person of one request. Every field is optional:
/// a producer that lacks the field it works from returns a neutral signal.
#[derive(Debug, Clone, PartialEq, Eq)]
pub struct InferenceInput {
    pub email: Option<String>,
    pub name: Option<String>,
    pub profile_pic_url: Option<String>,
    pub browsing_history: Option<Vec<String>>,
}

/// The partial, probabilistic answer of one producer to one request, and
/// the shape of a fused answer too.
///
/// The three gender numbers and the seven age numbers are distributions in
/// billionths. All zero means that the producer holds no opinion; an opinion
/// adds up to one. A label for the ethnicity comes with a confidence of its
/// own, which is zero when there is no label.
#[derive(Debug, Clone, PartialEq, Eq)]
pub struct InferenceSignal {
    pub source: SignalSource,
    pub gender_male: u32,
    pub gender_female: u32,
    pub gender_other: u32,
    pub ethnicity: Option<String>,
    pub ethnicity_confidence: u32,
    pub age_group_under_18: u32,
    pub age_group_18_24: u32,
    pub age_group_25_34: u32,
    pub age_group_35_44: u32,
    pub age_group_45_54: u32,
    pub age_group_55_64: u32,
    pub age_group_65_plus: u32,
    pub birth_year: Option<u16>,
    pub organization: Option<OrganizationIntelligence>,
    pub reasoning: Vec<String>,
    pub latency_ms: u64,
    pub tokens_used: Option<u32>,
}

/// The mathematical content of an [`InferenceSignal`].
pub struct SignalView {
    pub source: SignalSource,
    /// Male, female, other.
    pub gender: Seq<nat>,
    pub ethnicity: Option<Seq<char>>,
    pub ethnicity_confidence: nat,
    /// The seven brackets, youngest first.
    pub age: Seq<nat>,
    pub birth_year: Option<nat>,
    pub organization: Option<OrganizationView>,
    pub reasoning: Seq<Seq<char>>,
    pub latency_ms: nat,
    pub tokens_used: Option<nat>,
}

impl View for InferenceSignal {
    type V = SignalView;

    open spec fn view(&self) -> SignalView {
        SignalView {
            source: self.source,
            gender: self.gender(),
            ethnicity: opt_text(self.ethnicity),
            ethnicity_confidence: self.ethnicity_confidence as nat,
            age: self.age(),
            birth_year: match self.birth_year {
                Some(year) => Some(year as nat),
                None => None,
            },
            organization: opt_organization(self.organization),
            reasoning: texts(self.reasoning@),
            latency_ms: self.latency_ms as nat,
            tokens_used: match self.tokens_used {
                Some(tokens) => Some(tokens as nat),
                None => None,
            },
        }
    }
}

impl SignalView {
    /// Both distributions hold no opinion or add up to one, and a confidence
    /// in the ethnicity is at most one and comes only with a label.
    pub open spec fn well_formed(self) -> bool {
        &&& well_formed(self.gender)
        &&& well_formed(self.age)
        &&& self.ethnicity_confidence <= crate::probability::ONE
        &&& self.ethnicity is None ==> self.ethnicity_confidence == 0
    }

    /// The signal of a source that holds no opinion on anything.
    pub open spec fn neutral(source: SignalSource) -> SignalView {
        SignalView {
            source,
            gender: seq![0nat, 0nat, 0nat],
            ethnicity: None,
            ethnicity_confidence: 0,
            age: seq![0nat, 0nat, 0nat, 0nat, 0nat, 0nat, 0nat],
            birth_year: None,
            organization: None,
            reasoning: Seq::empty(),
            latency_ms: 0,
            tokens_used: None,
        }
    }
}

impl InferenceSignal {
    /// The gender distribution: male, female, other.
    pub open spec fn gender(&self) -> Seq<nat> {
        seq![self.gender_male as nat, self.gender_female as nat, self.gender_other as nat]
    }

    /// The age distribution, youngest bracket first.
    pub open spec fn age(&self) -> Seq<nat> {
        seq![
            self.age_group_under_18 as nat,
            self.age_group_18_24 as nat,
            self.age_group_25_34 as nat,
            self.age_group_35_44 as nat,
            self.age_group_45_54 as nat,
            self.age_group_55_64 as nat,
            self.age_group_65_plus as nat,
        ]
    }

    /// The signal is well formed: both distributions hold no opinion or add
    /// up to one, and a confidence in the ethnicity is at most one and comes
    /// only with a label. The producers make such signals (one that asks a
    /// model does where the probabilities of the reply add up to one at
    /// most), and fusing such signals gives such a signal.
    pub open spec fn well_formed(&self) -> bool {
        self@.well_formed()
    }

    /// What the three numbers of the gender add up to.
    pub open spec fn gender_total(&self) -> nat {
        (self.gender_male + self.gender_female + self.gender_other) as nat
    }

    /// What the seven numbers of the age add up to.
    pub open spec fn age_total(&self) -> nat {
        (self.age_group_under_18 + self.age_group_18_24 + self.age_group_25_34
            + self.age_group_35_44 + self.age_group_45_54 + self.age_group_55_64
            + self.age_group_65_plus) as nat
    }

    /// Whether the signal holds an opinion on the gender.
    pub open spec fn gender_opinion(&self) -> bool {
        self.gender_male > 0 || self.gender_female > 0 || self.gender_other > 0
    }

    /// Whether the signal holds an opinion on the age.
    pub open spec fn age_opinion(&self) -> bool {
        self.age_group_under_18 > 0 || self.age_group_18_24 > 0 || self.age_group_25_34 > 0
            || self.age_group_35_44 > 0 || self.age_group_45_54 > 0 || self.age_group_55_64 > 0
            || self.age_group_65_plus > 0
    }

    /// A signal of the given source that holds no opinion on anything.
    pub fn new(source: SignalSource) -> (signal: InferenceSignal)
        ensures
            signal@ == SignalView::neutral(source),
            signal.well_formed(),
            !signal.gender_opinion(),
            !signal.age_opinion(),
    {
        let signal = InferenceSignal {
            source,
            gender_male: 0,
            gender_female: 0,
            gender_other: 0,
            ethnicity: None,
            ethnicity_confidence: 0,
            age_group_under_18: 0,
            age_group_18_24: 0,
            age_group_25_34: 0,
            age_group_35_44: 0,
            age_group_45_54: 0,
            age_group_55_64: 0,
            age_group_65_plus: 0,
            birth_year: None,
            organization: None,
            reasoning: Vec::new(),
            latency_ms: 0,
            tokens_used: None,
        };
        proof {
            assert(signal.gender() =~= seq![0nat, 0nat, 0nat]);
            assert(signal.age() =~= seq![0nat, 0nat, 0nat, 0nat, 0nat, 0nat, 0nat]);
            assert(texts(signal.reasoning@) =~= Seq::<Seq<char>>::empty());
            signal.lemma_opinions();
        }
        signal
    }

    /// A copy that holds what the signal holds.
    pub fn duplicate(&self) -> (copy: InferenceSignal)
        ensures
            copy@ == self@,
            copy.gender_opinion() == self.gender_opinion(),
            copy.age_opinion() == self.age_opinion(),
            copy.ethnicity == self.ethnicity,
            copy.organization == self.organization,
            copy.well_formed() == self.well_formed(),
    {
        let mut reasoning: Vec<String> = Vec::new();
        let mut i: usize = 0;
        while i < self.reasoning.len()
            invariant
                i <= self.reasoning.len(),
                reasoning@.len() == i,
                forall|j: int| 0 <= j < i ==> reasoning@[j] == self.reasoning@[j],
            decreases self.reasoning.len() - i,
        {
            reasoning.push(self.reasoning[i].clone());
            i = i + 1;
        }
        proof {
            assert(texts(reasoning@) =~= texts(self.reasoning@));
        }
        InferenceSignal {
            source: self.source,
            gender_male: self.gender_male,
            gender_female: self.gender_female,
            gender_other: self.gender_other,
            ethnicity: clone_opt_text(&self.ethnicity),
            ethnicity_confidence: self.ethnicity_confidence,
            age_group_under_18: self.age_group_under_18,
            age_group_18_24: self.age_group_18_24,
            age_group_25_34: self.age_group_25_34,
            age_group_35_44: self.age_group_35_44,
            age_group_45_54: self.age_group_45_54,
            age_group_55_64: self.age_group_55_64,
            age_group_65_plus: self.age_group_65_plus,
            birth_year: self.birth_year,
            organization: match &self.organization {
                Some(org) => Some(org.duplicate()),
                None => None,
            },
            reasoning,
            latency_ms: self.latency_ms,
            tokens_used: self.tokens_used,
        }
    }

    /// The signal with the time that it took to make, and nothing else
    /// changed.
    pub fn with_latency(self, latency_ms: u64) -> (timed: InferenceSignal)
        ensures
            timed == (InferenceSignal { latency_ms, ..self }),
            timed@ == (SignalView { latency_ms: latency_ms as nat, ..self@ }),
    {
        let mut timed = self;
        timed.latency_ms = latency_ms;
        timed
    }

    /// Replaces the age distribution, youngest bracket first, and nothing
    /// else.
    pub fn set_age_probs(&mut self, probs: [u32; 7])
        ensures
            final(self).age() == as_nats(probs@),
            final(self)@ == (SignalView { age: as_nats(probs@), ..old(self)@ }),
            final(self).gender_male == old(self).gender_male,
            final(self).gender_female == old(self).gender_female,
            final(self).gender_other == old(self).gender_other,
            final(self).ethnicity == old(self).ethnicity,
            final(self).ethnicity_confidence == old(self).ethnicity_confidence,
            final(self).birth_year == old(self).birth_year,
            final(self).organization == old(self).organization,
            final(self).reasoning == old(self).reasoning,
            final(self).latency_ms == old(self).latency_ms,
            final(self).tokens_used == old(self).tokens_used,
            final(self).source == old(self).source,
    {
        self.age_group_under_18 = probs[0];
        self.age_group_18_24 = probs[1];
        self.age_group_25_34 = probs[2];
        self.age_group_35_44 = probs[3];
        self.age_group_45_54 = probs[4];
        self.age_group_55_64 = probs[5];
        self.age_group_65_plus = probs[6];
        proof {
            assert(self.age() =~= as_nats(probs@));
        }
    }

    /// The age distribution, youngest bracket first.
    pub fn age_probs(&self) -> (probs: [u32; 7])
        ensures
            as_nats(probs@) == self.age(),
    {
        let probs: [u32; 7] = [
            self.age_group_under_18,
            self.age_group_18_24,
            self.age_group_25_34,
            self.age_group_35_44,
            self.age_group_45_54,
            self.age_group_55_64,
            self.age_group_65_plus,
        ];
        proof {
            assert(as_nats(probs@) =~= self.age());
        }
        probs
    }

    /// Whether the signal holds an opinion on the gender: some component of
    /// the distribution is above zero.
    #[verifier::when_used_as_spec(spec_has_gender_signal)]
    pub fn has_gender_signal(&self) -> (held: bool)
        ensures
            held == self.gender_opinion(),
            held == has_opinion(self.gender()),
    {
        proof {
            self.lemma_opinions();
        }
        self.gender_male > 0 || self.gender_female > 0 || self.gender_other > 0
    }

    /// Whether the signal holds an opinion on the age: some component of the
    /// distribution is above zero.
    #[verifier::when_used_as_spec(spec_has_age_signal)]
    pub fn has_age_signal(&self) -> (held: bool)
        ensures
            held == self.age_opinion(),
            held == has_opinion(self.age()),
    {
        proof {
            self.lemma_opinions();
        }
        self.age_group_under_18 > 0 || self.age_group_18_24 > 0 || self.age_group_25_34 > 0
            || self.age_group_35_44 > 0 || self.age_group_45_54 > 0 || self.age_group_55_64 > 0
            || self.age_group_65_plus > 0
    }

    pub open spec fn spec_has_gender_signal(&self) -> bool {
        self.gender_opinion()
    }

    pub open spec fn spec_has_age_signal(&self) -> bool {
        self.age_opinion()
    }

    /// The totals of the two distributions are the sums of their fields.
    pub proof fn lemma_totals(&self)
        ensures
            total(self.gender()) == self.gender_total(),
            total(self.age()) == self.age_total(),
    {
        lemma_total_of_three(self.gender());
        lemma_total_of_seven(self.age());
    }

    /// To hold an opinion, field by field, is to hold one as a distribution.
    pub proof fn lemma_opinions(&self)
        ensures
            self.gender_opinion() == has_opinion(self.gender()),
            self.age_opinion() == has_opinion(self.age()),
    {
        let g = self.gender();
        let a = self.age();
        if self.gender_opinion() {
            assert(g[0] > 0 || g[1] > 0 || g[2] > 0);
        }
        if self.age_opinion() {
            assert(a[0] > 0 || a[1] > 0 || a[2] > 0 || a[3] > 0 || a[4] > 0 || a[5] > 0 || a[6]
                > 0);
        }
    }
}

} // verus!

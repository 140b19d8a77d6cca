use aura::fusion::{
    best_ethnicity, best_organization, combined_reasoning, earliest_birth_year, fuse_borrowed,
    mean_age, mean_gender, slowest, sum_tokens,
};
use aura::{
    blend, can_fuse, fuse, AgeGroup, Confidence, InferenceSignal, OrganizationIntelligence,
    SignalSource, ONE,
};

fn signal(source: SignalSource) -> InferenceSignal {
    InferenceSignal::new(source)
}

fn with_gender(source: SignalSource, male: u32, female: u32, other: u32) -> InferenceSignal {
    let mut s = signal(source);
    s.gender_male = male;
    s.gender_female = female;
    s.gender_other = other;
    s
}

fn with_ethnicity(label: &str, confidence: u32) -> InferenceSignal {
    let mut s = signal(SignalSource::Onomastic);
    s.ethnicity = Some(label.to_string());
    s.ethnicity_confidence = confidence;
    s
}

fn organization(domain: &str, name: Option<&str>) -> OrganizationIntelligence {
    OrganizationIntelligence {
        domain: domain.to_string(),
        name: name.map(|n| n.to_string()),
        category: None,
        employee_count: None,
        employee_count_source: None,
    }
}

fn gender_of(s: &InferenceSignal) -> (u32, u32, u32) {
    (s.gender_male, s.gender_female, s.gender_other)
}

#[test]
fn fusing_nothing_gives_a_neutral_signal() {
    let fused = fuse(Vec::new());
    assert_eq!(fused, InferenceSignal::new(SignalSource::Local));
    assert_eq!(gender_of(&fused), (0, 0, 0));
    assert_eq!(fused.age_probs(), [0; 7]);
    assert_eq!(fused.ethnicity, None);
    assert_eq!(fused.ethnicity_confidence, 0);
    assert_eq!(fused.birth_year, None);
    assert_eq!(fused.organization, None);
    assert_eq!(fused.tokens_used, None);
    assert_eq!(fused.latency_ms, 0);
    assert!(fused.reasoning.is_empty());
    assert!(!fused.has_gender_signal());
    assert!(!fused.has_age_signal());
    assert_eq!(fuse_borrowed(&Vec::new()), fused);
}

#[test]
fn fusing_one_signal_returns_it_unchanged() {
    let mut only = with_gender(SignalSource::Vision, 250_000_000, 700_000_000, 50_000_000);
    only.ethnicity = Some("european".to_string());
    only.ethnicity_confidence = 600_000_000;
    only.age_group_25_34 = ONE;
    only.birth_year = Some(1990);
    only.organization = Some(OrganizationIntelligence::bare("acme.com".to_string()));
    only.reasoning.push("looked at the picture".to_string());
    only.latency_ms = 120;
    only.tokens_used = Some(0);
    let fused = fuse(vec![only.clone()]);
    assert_eq!(fused, only);
    assert_eq!(fused.source, SignalSource::Vision);
    assert_eq!(fuse_borrowed(&vec![only.clone()]), only);
    assert_eq!(only.duplicate(), only);
}

#[test]
fn two_female_opinions_are_not_diluted_by_a_silent_third() {
    let a = with_gender(SignalSource::Onomastic, 300_000_000, 700_000_000, 0);
    let b = with_gender(SignalSource::Vision, 300_000_000, 700_000_000, 0);
    let silent = signal(SignalSource::Local);
    let signals = vec![silent, a, b];
    assert!(can_fuse(&signals));
    let fused = fuse(signals);
    assert_eq!(gender_of(&fused), (300_000_000, 700_000_000, 0));
}

#[test]
fn a_silent_signal_leaves_the_fused_gender_wherever_it_stands() {
    let a = with_gender(SignalSource::Onomastic, 900_000_000, 100_000_000, 0);
    let b = with_gender(SignalSource::Vision, 200_000_000, 500_000_000, 300_000_000);
    let c = with_gender(SignalSource::Domain, 0, 0, ONE);
    let silent = signal(SignalSource::Local);
    let others = vec![a, b, c];
    let expected = gender_of(&fuse(others.clone()));
    assert_eq!(expected, (366_666_667, 200_000_000, 433_333_333));
    for at in 0..=others.len() {
        let mut with = others.clone();
        with.insert(at, silent.clone());
        assert_eq!(gender_of(&fuse(with)), expected);
    }
    // also next to a single signal, and alone
    let one = vec![others[1].clone()];
    assert_eq!(gender_of(&fuse(vec![silent.clone(), others[1].clone()])), gender_of(&fuse(one)));
    assert_eq!(gender_of(&fuse(vec![silent.clone()])), gender_of(&fuse(Vec::new())));
    assert_eq!(gender_of(&fuse(vec![silent.clone(), silent.clone()])), (0, 0, 0));
}

#[test]
fn a_signal_without_an_age_leaves_the_fused_age() {
    let mut a = signal(SignalSource::Local);
    a.set_age_probs(AgeGroup::Age25_34.to_one_hot());
    let mut b = signal(SignalSource::Vision);
    b.set_age_probs(AgeGroup::Age35_44.to_one_hot());
    let silent = with_gender(SignalSource::Onomastic, ONE, 0, 0);
    let expected = [0, 0, 500_000_000, 500_000_000, 0, 0, 0];
    assert_eq!(fuse(vec![a.clone(), b.clone()]).age_probs(), expected);
    assert_eq!(fuse(vec![silent.clone(), a.clone(), b.clone()]).age_probs(), expected);
    assert_eq!(fuse(vec![a.clone(), silent.clone(), b.clone()]).age_probs(), expected);
    assert_eq!(fuse(vec![a.clone(), b.clone(), silent.clone()]).age_probs(), expected);
    assert_eq!(mean_age(&vec![a, silent, b]), expected);
}

#[test]
fn fused_distributions_add_up_to_one_or_to_nothing() {
    let a = with_gender(SignalSource::Onomastic, 333_333_334, 333_333_333, 333_333_333);
    let b = with_gender(SignalSource::Vision, ONE, 0, 0);
    let c = with_gender(SignalSource::Domain, 0, 1, 999_999_999);
    let fused = fuse(vec![a, b, c]);
    let sum = fused.gender_male + fused.gender_female + fused.gender_other;
    assert_eq!(gender_of(&fused), (444_444_445, 111_111_111, 444_444_444));
    assert_eq!(sum, ONE);
    assert_eq!(fused.age_probs().iter().sum::<u32>(), 0);

    let mut x = signal(SignalSource::Local);
    x.set_age_probs([0, 0, 0, 0, 0, 0, ONE]);
    let mut y = signal(SignalSource::Vision);
    y.set_age_probs([
        142_857_148,
        142_857_142,
        142_857_142,
        142_857_142,
        142_857_142,
        142_857_142,
        142_857_142,
    ]);
    let mut z = signal(SignalSource::Vision);
    z.set_age_probs([0, ONE, 0, 0, 0, 0, 0]);
    let fused = fuse(vec![x, y, z]);
    assert_eq!(fused.age_probs(), [
            47_619_050,
            380_952_381,
            47_619_048,
            47_619_047,
            47_619_047,
            47_619_047,
            380_952_380
        ]);
    let sum = fused.age_probs().iter().sum::<u32>();
    assert_eq!(sum, ONE);
    assert_eq!(fused.gender_male + fused.gender_female + fused.gender_other, 0);
}

#[test]
fn the_most_confident_ethnicity_wins() {
    let strong = with_ethnicity("south_asian", 900_000_000);
    let weak = with_ethnicity("european", 400_000_000);
    for signals in [vec![strong.clone(), weak.clone()], vec![weak.clone(), strong.clone()]] {
        let fused = fuse(signals);
        assert_eq!(fused.ethnicity, Some("south_asian".to_string()));
        assert_eq!(fused.ethnicity_confidence, 900_000_000);
    }
    // among equals the first wins
    let first = with_ethnicity("african", 500_000_000);
    let second = with_ethnicity("european", 500_000_000);
    let fused = fuse(vec![weak.clone(), first.clone(), second.clone()]);
    assert_eq!(fused.ethnicity, Some("african".to_string()));
    assert_eq!(fused.ethnicity_confidence, 500_000_000);
    assert_eq!(best_ethnicity(&vec![weak.clone(), first, second]), Some(1));
    // a confidence without a label does not count
    let mut unlabelled = signal(SignalSource::Vision);
    unlabelled.ethnicity_confidence = ONE;
    let fused = fuse(vec![unlabelled.clone(), weak.clone()]);
    assert_eq!(fused.ethnicity, Some("european".to_string()));
    assert_eq!(fused.ethnicity_confidence, 400_000_000);
    let fused = fuse(vec![unlabelled.clone(), unlabelled.clone()]);
    assert_eq!(fused.ethnicity, None);
    assert_eq!(fused.ethnicity_confidence, 0);
    assert_eq!(best_ethnicity(&vec![unlabelled]), None);
    // a label with no confidence still wins over no label
    let fused = fuse(vec![signal(SignalSource::Local), with_ethnicity("x", 0)]);
    assert_eq!(fused.ethnicity, Some("x".to_string()));
}

#[test]
fn a_local_year_and_an_unreachable_model() {
    let agent = aura::LocalAgent::new();
    let input = aura::InferenceInput {
        email: Some("alice1990@acme.com".to_string()),
        name: None,
        profile_pic_url: None,
        browsing_history: None,
    };
    let mut local = agent.analyze_in_year(&input, 2026);
    local.latency_ms = 3;
    let step = aura::llm::receive(
        SignalSource::Onomastic,
        aura::llm::Exchange::RequestFailed("connection refused".to_string()),
    );
    let mut text = match step {
        aura::llm::Step::Done(signal) => signal,
        aura::llm::Step::Read { .. } => panic!("nothing to read"),
    };
    text.latency_ms = 250;
    let fused = fuse(vec![local, text]);
    assert_eq!(fused.birth_year, Some(1990));
    assert_eq!(fused.organization.as_ref().unwrap().domain, "acme.com");
    assert_eq!(gender_of(&fused), (0, 0, 0));
    assert!(fused.reasoning.contains(&"Birth year 1990 extracted from email pattern.".to_string()));
    assert!(fused
        .reasoning
        .contains(&"Onomastic request failed: connection refused".to_string()));
    assert_eq!(fused.reasoning.len(), 3);
    assert_eq!(fused.latency_ms, 250);
    assert_eq!(fused.age_group_35_44, ONE);
    assert_eq!(fused.tokens_used, None);
    assert_eq!(fused.source, SignalSource::Local);
}

#[test]
fn the_first_birth_year_wins() {
    let mut a = signal(SignalSource::Local);
    let mut b = signal(SignalSource::Vision);
    let mut c = signal(SignalSource::Onomastic);
    b.birth_year = Some(1985);
    c.birth_year = Some(1990);
    assert_eq!(fuse(vec![a.clone(), b.clone(), c.clone()]).birth_year, Some(1985));
    assert_eq!(fuse(vec![c.clone(), b.clone()]).birth_year, Some(1990));
    a.birth_year = Some(0);
    assert_eq!(earliest_birth_year(&vec![a.clone(), b, c]), Some(0));
    a.birth_year = None;
    assert_eq!(earliest_birth_year(&vec![a.clone(), a]), None);
    assert_eq!(earliest_birth_year(&Vec::new()), None);
}

#[test]
fn a_named_organization_outranks_a_bare_domain() {
    let mut bare = signal(SignalSource::Local);
    bare.organization = Some(organization("acme.com", None));
    let mut named = signal(SignalSource::Domain);
    named.organization = Some(organization("acme.com", Some("Acme Inc.")));
    let mut other = signal(SignalSource::Domain);
    other.organization = Some(organization("acme.org", Some("Acme Org")));
    let none = signal(SignalSource::Vision);

    let fused = fuse(vec![none.clone(), bare.clone(), named.clone(), other.clone()]);
    assert_eq!(fused.organization, named.organization);
    let fused = fuse(vec![other.clone(), bare.clone(), named.clone()]);
    assert_eq!(fused.organization, other.organization);
    let mut second_bare = signal(SignalSource::Local);
    second_bare.organization = Some(organization("second.com", None));
    let fused = fuse(vec![none.clone(), bare.clone(), second_bare.clone()]);
    assert_eq!(fused.organization, bare.organization);
    assert_eq!(best_organization(&vec![none.clone(), none.clone()]), None);
    assert_eq!(best_organization(&vec![second_bare.clone(), bare]), second_bare.organization);
}

#[test]
fn reasoning_latency_and_tokens() {
    let mut a = signal(SignalSource::Local);
    a.reasoning = vec!["a1".to_string(), "a2".to_string()];
    a.latency_ms = 5;
    let mut b = signal(SignalSource::Vision);
    b.latency_ms = 900;
    b.tokens_used = Some(0);
    let mut c = signal(SignalSource::Onomastic);
    c.reasoning = vec!["c1".to_string()];
    c.latency_ms = 40;
    c.tokens_used = Some(120);
    let mut d = signal(SignalSource::Domain);
    d.tokens_used = Some(30);
    let signals = vec![a.clone(), b.clone(), c.clone(), d.clone()];
    let fused = fuse(signals.clone());
    assert_eq!(fused.reasoning, vec!["a1", "a2", "c1"]);
    assert_eq!(fused.latency_ms, 900);
    assert_eq!(fused.tokens_used, Some(150));
    assert_eq!(combined_reasoning(&signals), vec!["a1", "a2", "c1"]);
    assert_eq!(slowest(&signals), 900);
    assert_eq!(slowest(&Vec::new()), 0);
    // a report of zero tokens is a report
    assert_eq!(fuse(vec![a.clone(), b.clone()]).tokens_used, Some(0));
    assert_eq!(fuse(vec![a.clone(), a.clone()]).tokens_used, None);
    assert_eq!(sum_tokens(&vec![a.clone()]), None);
    assert_eq!(sum_tokens(&vec![b.clone(), d.clone()]), Some(30));
}

#[test]
fn tokens_that_do_not_fit_cannot_be_fused() {
    let mut a = signal(SignalSource::Vision);
    a.tokens_used = Some(u32::MAX);
    let mut b = signal(SignalSource::Onomastic);
    b.tokens_used = Some(1);
    assert!(!can_fuse(&vec![a.clone(), b.clone()]));
    b.tokens_used = Some(0);
    assert!(can_fuse(&vec![a.clone(), b.clone()]));
    assert_eq!(fuse(vec![a.clone(), b]).tokens_used, Some(u32::MAX));
    assert!(can_fuse(&vec![a.clone()]));
    assert!(can_fuse(&Vec::new()));
}

#[test]
fn mean_of_gender_loses_nothing_to_rounding() {
    let a = with_gender(SignalSource::Vision, 1, 0, 999_999_999);
    let b = with_gender(SignalSource::Onomastic, 0, 0, ONE);
    assert_eq!(mean_gender(&vec![a.clone(), b.clone()]), (1, 0, 999_999_999));
    assert_eq!(mean_gender(&vec![a.clone()]), (1, 0, 999_999_999));
    assert_eq!(mean_gender(&Vec::new()), (0, 0, 0));
    let big = with_gender(SignalSource::Vision, u32::MAX, u32::MAX, u32::MAX);
    assert_eq!(mean_gender(&vec![big.clone(), big.clone(), big]), (u32::MAX, u32::MAX, u32::MAX));
    assert_eq!(gender_of(&blend(vec![a, b])), (1, 0, 999_999_999));
}

#[test]
fn blending_a_single_signal_forgets_its_source() {
    let mut only = with_gender(SignalSource::Vision, 250_000_000, 700_000_000, 50_000_000);
    only.latency_ms = 7;
    let blended = blend(vec![only.clone()]);
    assert_eq!(blended.source, SignalSource::Local);
    assert_eq!(gender_of(&blended), gender_of(&only));
    assert_eq!(blended.latency_ms, 7);
    assert_eq!(blend(Vec::new()), InferenceSignal::new(SignalSource::Local));
}

#[test]
fn confidence_tiers() {
    assert_eq!(Confidence::from_probability(810_000_000), Confidence::Strong);
    assert_eq!(Confidence::from_probability(800_000_000), Confidence::Strong);
    assert_eq!(Confidence::from_probability(ONE), Confidence::Strong);
    assert_eq!(Confidence::from_probability(u32::MAX), Confidence::Strong);
    assert_eq!(Confidence::from_probability(500_000_000), Confidence::Medium);
    assert_eq!(Confidence::from_probability(799_999_999), Confidence::Medium);
    assert_eq!(Confidence::from_probability(200_000_000), Confidence::Low);
    assert_eq!(Confidence::from_probability(499_999_999), Confidence::Low);
    assert_eq!(Confidence::from_probability(1), Confidence::Low);
    assert_eq!(Confidence::from_probability(0), Confidence::Absent);
}

#[test]
fn three_certain_opinions_share_one_without_loss() {
    let a = with_gender(SignalSource::Vision, ONE, 0, 0);
    let b = with_gender(SignalSource::Onomastic, 0, ONE, 0);
    let c = with_gender(SignalSource::Domain, 0, 0, ONE);
    let fused = fuse(vec![a.clone(), b.clone(), c.clone()]);
    assert_eq!(gender_of(&fused), (333_333_334, 333_333_333, 333_333_333));
    assert_eq!(fused.gender_male + fused.gender_female + fused.gender_other, ONE);

    let mut x = signal(SignalSource::Local);
    x.set_age_probs(AgeGroup::Under18.to_one_hot());
    let mut y = signal(SignalSource::Vision);
    y.set_age_probs(AgeGroup::Age35_44.to_one_hot());
    let mut z = signal(SignalSource::Vision);
    z.set_age_probs(AgeGroup::Age65Plus.to_one_hot());
    let fused_age = fuse(vec![x, y, z]);
    assert_eq!(
        fused_age.age_probs(),
        [333_333_334, 0, 0, 333_333_333, 0, 0, 333_333_333]
    );
    assert_eq!(fused_age.age_probs().iter().sum::<u32>(), ONE);

    // a fused signal is a signal like any other: fusing it again keeps the sum
    let again = fuse(vec![fused.clone(), a, fused_age.clone()]);
    assert_eq!(gender_of(&again), (666_666_667, 166_666_667, 166_666_666));
    assert_eq!(again.gender_male + again.gender_female + again.gender_other, ONE);
    assert_eq!(again.age_probs(), fused_age.age_probs());
    let seven = fuse(vec![fused.clone(), b, c, fused.clone(), fused.clone(), fused.clone(), fused]);
    assert_eq!(seven.gender_male + seven.gender_female + seven.gender_other, ONE);
}

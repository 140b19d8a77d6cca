use aura::metric::{assemble_metrics, count_tokens, list_inputs, source_metrics};
use aura::{
    build_metrics, fuse, AbstentionMetrics, InferenceInput, InferenceSignal,
    OrganizationIntelligence, SignalSource, ONE,
};

fn request() -> InferenceInput {
    InferenceInput {
        email: Some("alice1990@acme.com".to_string()),
        name: None,
        profile_pic_url: Some("https://example.org/a.png".to_string()),
        browsing_history: None,
    }
}

fn signals() -> Vec<InferenceSignal> {
    let mut local = InferenceSignal::new(SignalSource::Local);
    local.organization = Some(OrganizationIntelligence::bare("acme.com".to_string()));
    local.birth_year = Some(1990);
    local.age_group_35_44 = ONE;
    local.latency_ms = 2;
    let mut vision = InferenceSignal::new(SignalSource::Vision);
    vision.gender_female = 700_000_000;
    vision.gender_male = 300_000_000;
    vision.latency_ms = 850;
    vision.tokens_used = Some(420);
    let mut text = InferenceSignal::new(SignalSource::Onomastic);
    text.ethnicity = Some("european".to_string());
    text.ethnicity_confidence = 600_000_000;
    text.latency_ms = 400;
    text.tokens_used = Some(80);
    vec![local, vision, text]
}

#[test]
fn inputs_that_came_with_a_request() {
    assert_eq!(list_inputs(&request()), vec!["email", "profile_pic_url"]);
    let all = InferenceInput {
        email: Some(String::new()),
        name: Some("A".to_string()),
        profile_pic_url: Some("u".to_string()),
        browsing_history: Some(Vec::new()),
    };
    assert_eq!(list_inputs(&all), vec!["email", "name", "profile_pic_url", "browsing_history"]);
    let none =
        InferenceInput { email: None, name: None, profile_pic_url: None, browsing_history: None };
    assert!(list_inputs(&none).is_empty());
}

#[test]
fn what_a_producer_contributed() {
    let all = signals();
    let local = source_metrics(&all[0]);
    assert_eq!(local.source, SignalSource::Local);
    assert_eq!(local.latency_ms, 2);
    assert_eq!(local.tokens_used, None);
    assert_eq!(local.contributed, vec!["organization", "birth_year", "age"]);
    assert_eq!(local.confidence, ONE);
    let vision = source_metrics(&all[1]);
    assert_eq!(vision.contributed, vec!["gender"]);
    assert_eq!(vision.tokens_used, Some(420));
    let text = source_metrics(&all[2]);
    assert_eq!(text.contributed, vec!["ethnicity"]);
    let mut full = all[0].clone();
    full.gender_other = 1;
    full.ethnicity = Some("x".to_string());
    assert_eq!(
        source_metrics(&full).contributed,
        vec!["organization", "birth_year", "gender", "age", "ethnicity"]
    );
    assert!(source_metrics(&InferenceSignal::new(SignalSource::Domain)).contributed.is_empty());
}

#[test]
fn the_record_of_a_request() {
    let all = signals();
    let fused = fuse(all.clone());
    let metrics = assemble_metrics(
        &all,
        &fused,
        &request(),
        "id-1".to_string(),
        "2026-01-01T00:00:00+00:00".to_string(),
    );
    assert_eq!(metrics.request_id, "id-1");
    assert_eq!(metrics.timestamp, "2026-01-01T00:00:00+00:00");
    assert_eq!(metrics.inputs_provided, vec!["email", "profile_pic_url"]);
    assert_eq!(metrics.sources_used.len(), 3);
    for (used, signal) in metrics.sources_used.iter().zip(all.iter()) {
        assert_eq!(*used, source_metrics(signal));
    }
    assert!(metrics.sources_agreed);
    assert_eq!(metrics.fusion_confidence, ONE);
    assert_eq!(
        metrics.abstentions,
        AbstentionMetrics { gender: false, ethnicity: false, age: false }
    );
    assert!(!metrics.edge_case);
    assert_eq!(metrics.total_tokens, 500);
    assert_eq!(metrics.estimated_cost_usd, 0);
    assert_eq!(metrics.total_latency_ms, 850);
}

#[test]
fn abstentions_follow_the_fused_signal() {
    let all = vec![InferenceSignal::new(SignalSource::Local)];
    let fused = fuse(all.clone());
    let none =
        InferenceInput { email: None, name: None, profile_pic_url: None, browsing_history: None };
    let metrics = assemble_metrics(&all, &fused, &none, String::new(), String::new());
    assert_eq!(
        metrics.abstentions,
        AbstentionMetrics { gender: true, ethnicity: true, age: true }
    );
    assert_eq!(metrics.total_tokens, 0);
    assert_eq!(metrics.total_latency_ms, 0);
    let mut opinionated = InferenceSignal::new(SignalSource::Local);
    opinionated.age_group_65_plus = ONE;
    let metrics = assemble_metrics(&Vec::new(), &opinionated, &none, String::new(), String::new());
    assert_eq!(
        metrics.abstentions,
        AbstentionMetrics { gender: true, ethnicity: true, age: false }
    );
    assert!(metrics.sources_used.is_empty());
}

#[test]
fn a_fresh_record_has_an_identifier_and_a_time() {
    let all = signals();
    let fused = fuse(all.clone());
    let first = build_metrics(&all, &fused, &request());
    let second = build_metrics(&all, &fused, &request());
    assert_eq!(first.request_id.chars().count(), 36);
    assert_eq!(second.request_id.len(), 36);
    assert_ne!(first.request_id, second.request_id);
    assert_eq!(first.request_id.matches('-').count(), 4);
    assert!(first.timestamp.len() >= 20);
    assert!(first.timestamp.starts_with("20"));
    assert!(first.timestamp.ends_with("+00:00"));
    assert_eq!(first.total_tokens, 500);
    assert_eq!(first.sources_used, second.sources_used);
}

#[test]
fn tokens_are_counted_if_they_fit() {
    let mut a = InferenceSignal::new(SignalSource::Vision);
    a.tokens_used = Some(u32::MAX);
    let mut b = InferenceSignal::new(SignalSource::Vision);
    b.tokens_used = Some(1);
    assert_eq!(count_tokens(&vec![a.clone()]), Some(u32::MAX));
    assert_eq!(count_tokens(&vec![a.clone(), b.clone()]), None);
    assert_eq!(count_tokens(&vec![b.clone(), b.clone()]), Some(2));
    assert_eq!(count_tokens(&Vec::new()), Some(0));
}

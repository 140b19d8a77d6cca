use aura::dispatch::{
    can_respond, fuzzy_producers, fuzzy_response, is_applicable, plan, raw_producers, raw_response,
};
use aura::model::{AnalyzeQuery, GazeRequest, InferRequest};
use aura::prompt::{gaze_inputs, gaze_p, gaze_question, infer_p, infer_question, join};
use aura::text::replace_all;
use aura::{
    fuse, Confidence, FuzzyResponse, Gender, InferResponse, InferenceInput, InferenceSignal,
    SignalSource, ONE,
};

fn input(picture: bool) -> InferenceInput {
    InferenceInput {
        email: Some("alice1990@acme.com".to_string()),
        name: None,
        profile_pic_url: if picture { Some("https://example.org/a.png".to_string()) } else { None },
        browsing_history: None,
    }
}

#[test]
fn the_picture_is_looked_at_only_if_there_is_one() {
    let (domain, local, onomastic, vision) = (
        SignalSource::Domain,
        SignalSource::Local,
        SignalSource::Onomastic,
        SignalSource::Vision,
    );
    assert_eq!(fuzzy_producers(), vec![local, onomastic, vision]);
    assert_eq!(raw_producers(), vec![local, vision]);
    assert_eq!(plan(&fuzzy_producers(), &input(true)), vec![local, onomastic, vision]);
    assert_eq!(plan(&fuzzy_producers(), &input(false)), vec![local, onomastic]);
    assert_eq!(plan(&raw_producers(), &input(true)), vec![local, vision]);
    assert_eq!(plan(&raw_producers(), &input(false)), vec![local]);
    assert_eq!(
        plan(&vec![vision, domain, vision, local, domain], &input(false)),
        vec![domain, local, domain]
    );
    assert_eq!(plan(&Vec::new(), &input(true)), Vec::new());
    assert!(is_applicable(domain, &input(false)));
    assert!(!is_applicable(vision, &input(false)));
    assert!(is_applicable(vision, &input(true)));
}

fn signals() -> Vec<InferenceSignal> {
    let mut local = aura::LocalAgent::new().analyze_in_year(&input(true), 2026);
    local.latency_ms = 1;
    let mut vision = InferenceSignal::new(SignalSource::Vision);
    vision.gender_female = 900_000_000;
    vision.gender_male = 100_000_000;
    vision.latency_ms = 700;
    vision.tokens_used = Some(300);
    vec![local, vision]
}

#[test]
fn responses_carry_the_fused_signal() {
    let all = signals();
    assert!(can_respond(&all));
    let fused = fuse(all.clone());
    let raw = raw_response(&all, &input(true), false);
    assert_eq!(raw, InferResponse::from(fused.clone()));
    let fuzzy = fuzzy_response(&all, &input(true), false);
    assert_eq!(fuzzy, FuzzyResponse::from(fused.clone()));
    assert_eq!(fuzzy.gender, Gender::Female);
    assert_eq!(fuzzy.gender_confidence, Confidence::Strong);
    assert_eq!(fuzzy.age_group_confidence, Confidence::Strong);

    let raw = raw_response(&all, &input(true), true);
    let metrics = raw.metrics.clone().unwrap();
    assert_eq!(InferResponse { metrics: None, ..raw }, InferResponse::from(fused.clone()));
    assert_eq!(metrics.sources_used.len(), 2);
    assert_eq!(metrics.total_tokens, 300);
    assert_eq!(metrics.total_latency_ms, 700);
    assert_eq!(metrics.inputs_provided, vec!["email", "profile_pic_url"]);
    assert!(!metrics.abstentions.gender);
    assert!(metrics.abstentions.ethnicity);
    assert!(!metrics.abstentions.age);
    let fuzzy = fuzzy_response(&all, &input(true), true);
    assert!(fuzzy.metrics.is_some());

    let one = vec![all[1].clone()];
    assert_eq!(raw_response(&one, &input(true), false), InferResponse::from(all[1].clone()));
    assert_eq!(
        raw_response(&Vec::new(), &input(true), false),
        InferResponse::from(InferenceSignal::new(SignalSource::Local))
    );
    let mut heavy = all[1].clone();
    heavy.tokens_used = Some(u32::MAX);
    assert!(!can_respond(&vec![heavy, all[1].clone()]));
    assert_eq!(ONE, 1_000_000_000);
}

#[test]
fn templates_are_filled_in() {
    let prompt = infer_p("Alice", "alice@acme.com");
    assert!(prompt.starts_with("You are a demographic infer system. Given a name email,"));
    assert!(prompt.contains("        - Name: Alice\n        - Email: alice@acme.com\n"));
    assert!(!prompt.contains("{NAME}") && !prompt.contains("{EMAIL}"));
    assert!(prompt.ends_with("- If uncertain, distribute probabilities more evenly"));
    // what the name brings with it is filled in too
    assert!(infer_p("{EMAIL}", "e@x.org").contains("- Name: e@x.org\n"));
    assert!(infer_p("n", "{NAME}").contains("- Email: {NAME}\n"));

    let prompt = gaze_p("- Email: a@b.c", true);
    assert!(prompt.contains("    Input:\n    - Email: a@b.c\n\n"));
    assert!(prompt.ends_with("Profile picture provided: true"));
    assert!(gaze_p("", false).ends_with("Profile picture provided: false"));
    assert!(!prompt.contains("{INPUTS}") && !prompt.contains("{HAS_PIC}"));
}

#[test]
fn replacing_like_the_standard_library() {
    let cases = [
        ("a{X}b{X}", "{X}", "1"),
        ("{X}{X}{X}", "{X}", ""),
        ("aaaa", "aa", "b"),
        ("aaa", "aa", "b"),
        ("abc", "x", "y"),
        ("", "x", "y"),
        ("abc", "abc", "abcabc"),
        ("ab", "abc", "z"),
        ("éé{é}", "{é}", "ü"),
        ("xyx", "x", "xx"),
    ];
    for (text, pattern, with) in cases {
        assert_eq!(replace_all(text, pattern, with), text.replace(pattern, with));
    }
    // an empty pattern has no place
    assert_eq!(replace_all("abc", "", "-"), "abc");
}

#[test]
fn inputs_are_listed_line_by_line() {
    assert_eq!(gaze_inputs("a@b.c", None, None), "- Email: a@b.c");
    assert_eq!(gaze_inputs("a@b.c", Some("Al"), None), "- Email: a@b.c\n- Name: Al");
    let history = vec!["x.org".to_string(), "y.org".to_string()];
    assert_eq!(
        gaze_inputs("a@b.c", Some("Al"), Some(&history)),
        "- Email: a@b.c\n- Name: Al\n- Browsing History: x.org, y.org"
    );
    assert_eq!(
        gaze_inputs("a@b.c", None, Some(&Vec::new())),
        "- Email: a@b.c\n- Browsing History: "
    );
    assert_eq!(join(&history, ", "), "x.org, y.org");
    assert_eq!(join(&vec!["only".to_string()], ", "), "only");
    assert_eq!(join(&Vec::new(), ", "), "");
    assert_eq!(join(&vec![String::new(), String::new()], "-"), "-");
}

#[test]
fn questions_of_requests() {
    let request = InferRequest { name: "Alice".to_string(), email: "alice@acme.com".to_string() };
    assert_eq!(infer_question(&request), infer_p("Alice", "alice@acme.com"));
    let request = GazeRequest {
        email: "a@b.c".to_string(),
        name: Some("Al".to_string()),
        profile_pic_url: Some("u".to_string()),
        browsing_history: Some(vec!["x.org".to_string()]),
    };
    assert_eq!(
        gaze_question(&request),
        gaze_p("- Email: a@b.c\n- Name: Al\n- Browsing History: x.org", true)
    );
    let bare = GazeRequest {
        email: "a@b.c".to_string(),
        name: None,
        profile_pic_url: None,
        browsing_history: None,
    };
    assert_eq!(gaze_question(&bare), gaze_p("- Email: a@b.c", false));
    assert!(AnalyzeQuery { minimal: None }.include_metrics());
    assert!(AnalyzeQuery { minimal: Some(false) }.include_metrics());
    assert!(!AnalyzeQuery { minimal: Some(true) }.include_metrics());
}

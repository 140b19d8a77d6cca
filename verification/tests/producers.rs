use aura::llm::{
    receive, signal_with_note, ApiError, ChatRequest, ChatResponse, Choice, Content, Exchange,
    Reading, ResponseMessage, Start, Step, Usage, TEMPERATURE,
};
use aura::onomast::parser::OnomasticResult;
use aura::vision::parser::{parse_age_group, rest_of_one, VisionResult};
use aura::{domain, onomast, vision};
use aura::{AgeGroup, InferenceInput, InferenceSignal, OrganizationIntelligence, SignalSource, ONE};

fn input() -> InferenceInput {
    InferenceInput {
        email: Some("priya@acme.com".to_string()),
        name: Some("Priya Sharma".to_string()),
        profile_pic_url: Some("https://example.org/p.png".to_string()),
        browsing_history: None,
    }
}

fn answered(content: &str, tokens: Option<u32>) -> Exchange {
    Exchange::Answered(ChatResponse {
        choices: Some(vec![
            Choice { message: ResponseMessage { content: content.to_string() } },
            Choice { message: ResponseMessage { content: "second".to_string() } },
        ]),
        usage: tokens.map(|total_tokens| Usage { total_tokens }),
        error: None,
    })
}

fn asked(start: Start<ChatRequest>) -> ChatRequest {
    match start {
        Start::Ask(request) => request,
        Start::Done(_) => panic!("the model is to be asked"),
    }
}

fn skipped<Q>(start: Start<Q>) -> InferenceSignal {
    match start {
        Start::Done(signal) => signal,
        Start::Ask(_) => panic!("there is nothing to ask about"),
    }
}

fn done(step: Step) -> InferenceSignal {
    match step {
        Step::Done(signal) => signal,
        Step::Read { .. } => panic!("there is nothing to read"),
    }
}

#[test]
fn an_exchange_that_fails_leaves_a_note() {
    let s = done(receive(SignalSource::Vision, Exchange::RequestFailed("timed out".to_string())));
    assert_eq!(s, signal_with_note(SignalSource::Vision, "Vision request failed: timed out".to_string()));
    assert_eq!(s.reasoning, vec!["Vision request failed: timed out"]);
    assert_eq!(s.source, SignalSource::Vision);
    assert!(!s.has_gender_signal() && !s.has_age_signal());
    let s = done(receive(SignalSource::Onomastic, Exchange::Unreadable("EOF".to_string())));
    assert_eq!(s.reasoning, vec!["Failed to parse response: EOF"]);
    assert_eq!(s.source, SignalSource::Onomastic);
    let s = done(receive(
        SignalSource::Vision,
        Exchange::Answered(ChatResponse {
            choices: Some(vec![Choice { message: ResponseMessage { content: "x".to_string() } }]),
            usage: Some(Usage { total_tokens: 9 }),
            error: Some(ApiError { message: "quota exceeded".to_string() }),
        }),
    ));
    assert_eq!(s.reasoning, vec!["API error: quota exceeded"]);
    assert_eq!(s.tokens_used, None);
}

#[test]
fn an_answer_is_handed_on_without_its_frame() {
    match receive(SignalSource::Vision, answered("```json\n{\"is_human\": true}\n```", Some(77))) {
        Step::Read { signal, content } => {
            assert_eq!(content, "{\"is_human\": true}");
            assert_eq!(signal.tokens_used, Some(77));
            assert_eq!(signal.source, SignalSource::Vision);
            assert!(signal.reasoning.is_empty());
        }
        Step::Done(_) => panic!("there is a reply to read"),
    }
    let s = done(receive(
        SignalSource::Vision,
        Exchange::Answered(ChatResponse { choices: None, usage: None, error: None }),
    ));
    assert_eq!(s, InferenceSignal::new(SignalSource::Vision));
    let s = done(receive(
        SignalSource::Vision,
        Exchange::Answered(ChatResponse {
            choices: Some(Vec::new()),
            usage: Some(Usage { total_tokens: 5 }),
            error: None,
        }),
    ));
    assert_eq!(s.tokens_used, Some(5));
    assert!(s.reasoning.is_empty());
}

#[test]
fn the_picture_is_asked_about_if_there_is_one() {
    let request = asked(vision::begin(&input()));
    assert_eq!(request.model, "gpt-4o-mini");
    assert_eq!(request.temperature, TEMPERATURE);
    assert_eq!(TEMPERATURE, 100_000_000);
    assert_eq!(request.messages.len(), 1);
    assert_eq!(request.messages[0].role, "user");
    assert_eq!(request.messages[0].content.len(), 2);
    match &request.messages[0].content[0] {
        Content::Text { text } => {
            assert_eq!(*text, vision::prompt::analyze_image());
            assert!(text.starts_with("Analyze this profile picture. Return ONLY JSON, no markdown:\n    {\n"));
            assert!(text.contains("\"age_group\": \"18-24\"|\"25-34\"|\"35-44\"|\"45-54\"|\"55-64\"|\"65+\"|null, \n"));
            assert!(text.ends_with("\"reasoning\": \"...\"\n    }\n    "));
            assert_eq!(text.len(), 303);
        }
        Content::ImageUrl { .. } => panic!("the instructions come first"),
    }
    match &request.messages[0].content[1] {
        Content::ImageUrl { image_url } => {
            assert_eq!(image_url.url, "https://example.org/p.png");
            assert_eq!(image_url.detail, "low");
        }
        Content::Text { .. } => panic!("the picture comes second"),
    }
    let mut without = input();
    without.profile_pic_url = None;
    assert_eq!(skipped(vision::begin(&without)), InferenceSignal::new(SignalSource::Vision));
}

#[test]
fn a_reply_about_a_picture_is_applied() {
    let result = VisionResult {
        gender_male: 200_000_000,
        gender_female: 700_000_000,
        age_group: Some("25-34".to_string()),
        age_confidence: 600_000_000,
        is_human: true,
        reasoning: "a young woman".to_string(),
    };
    let mut before = InferenceSignal::new(SignalSource::Vision);
    before.tokens_used = Some(77);
    before.reasoning.push("earlier".to_string());
    let s = vision::conclude(before.clone(), "{}", Reading::Parsed(result.clone()));
    assert_eq!((s.gender_male, s.gender_female, s.gender_other), (200_000_000, 700_000_000, 100_000_000));
    assert_eq!(s.age_probs(), AgeGroup::Age25_34.to_one_hot());
    assert_eq!(s.reasoning, vec!["earlier", "a young woman"]);
    assert_eq!(s.tokens_used, Some(77));
    assert_eq!(s.ethnicity, None);

    let mut s = before.clone();
    vision::parser::apply_result(&mut s, VisionResult { age_group: Some("teen".to_string()), ..result.clone() });
    assert_eq!(s.age_probs(), [0; 7]);
    assert_eq!(s.gender_female, 700_000_000);
    let mut s = before.clone();
    vision::parser::apply_result(&mut s, VisionResult { age_group: None, gender_male: 800_000_000, ..result.clone() });
    assert_eq!(s.age_probs(), [0; 7]);
    assert_eq!((s.gender_male, s.gender_female, s.gender_other), (800_000_000, 700_000_000, 0));

    let mut s = before.clone();
    vision::parser::apply_result(&mut s, VisionResult { is_human: false, ..result.clone() });
    assert_eq!(s.reasoning, vec!["earlier", "Profile picture is not human."]);
    assert!(!s.has_gender_signal() && !s.has_age_signal());

    let s = vision::conclude(before, "not json", Reading::Failed("expected value at line 1".to_string()));
    assert_eq!(s.reasoning, vec!["earlier", "Parse error: expected value at line 1 - Raw: not json"]);
    assert!(!s.has_gender_signal());
    assert_eq!(s.tokens_used, Some(77));
}

#[test]
fn labels_of_age_brackets() {
    assert_eq!(parse_age_group("under_18"), Some(AgeGroup::Under18));
    assert_eq!(parse_age_group("18-24"), Some(AgeGroup::Age18_24));
    assert_eq!(parse_age_group("25-34"), Some(AgeGroup::Age25_34));
    assert_eq!(parse_age_group("35-44"), Some(AgeGroup::Age35_44));
    assert_eq!(parse_age_group("45-54"), Some(AgeGroup::Age45_54));
    assert_eq!(parse_age_group("55-64"), Some(AgeGroup::Age55_64));
    assert_eq!(parse_age_group("65+"), Some(AgeGroup::Age65Plus));
    assert_eq!(parse_age_group("65"), None);
    assert_eq!(parse_age_group(" 18-24"), None);
    assert_eq!(parse_age_group("Under_18"), None);
    assert_eq!(parse_age_group(""), None);
    assert_eq!(rest_of_one(0, 0), ONE);
    assert_eq!(rest_of_one(ONE, 0), 0);
    assert_eq!(rest_of_one(600_000_000, 400_000_001), 0);
    assert_eq!(rest_of_one(u32::MAX, u32::MAX), 0);
    assert_eq!(rest_of_one(1, 2), 999_999_997);
}

#[test]
fn the_name_is_asked_about() {
    let request = asked(onomast::begin(&input()));
    assert_eq!(request.model, "gpt-4o-mini");
    assert_eq!(request.messages.len(), 1);
    assert_eq!(request.messages[0].content.len(), 1);
    let expected = "Analyze the name and email to infer gender and ethnicity/cultural background.\n\nName: Priya Sharma\nEmail: priya@acme.com\n\nReturn ONLY JSON, no markdown:\n{\"gender_male\": 0.0, \"gender_female\": 0.0, \"ethnicity\": \"south_asian\"|\"east_asian\"|\"southeast_asian\"|\"european\"|\"african\"|\"latin_american\"|\"middle_eastern\"|null, \"ethnicity_confidence\": 0.0, \"reasoning\": \"...\"}";
    match &request.messages[0].content[0] {
        Content::Text { text } => assert_eq!(text, expected),
        Content::ImageUrl { .. } => panic!("there is no picture"),
    }
    assert_eq!(onomast::prompt::analyze("Priya Sharma", "priya@acme.com"), expected);
    let mut only_email = input();
    only_email.name = None;
    match &asked(onomast::begin(&only_email)).messages[0].content[0] {
        Content::Text { text } => assert!(text.contains("\n\nName: \nEmail: priya@acme.com\n\n")),
        Content::ImageUrl { .. } => panic!("there is no picture"),
    }
    let nothing =
        InferenceInput { email: None, name: None, profile_pic_url: Some("u".to_string()), browsing_history: None };
    assert_eq!(
        skipped(onomast::begin(&nothing)),
        InferenceSignal::new(SignalSource::Onomastic)
    );
}

#[test]
fn a_reply_about_a_name_is_applied() {
    let result = OnomasticResult {
        gender_male: 100_000_000,
        gender_female: 850_000_000,
        ethnicity: Some("south_asian".to_string()),
        ethnicity_confidence: 900_000_000,
        reasoning: "a common given name".to_string(),
    };
    let before = InferenceSignal::new(SignalSource::Onomastic);
    let s = onomast::conclude(before.clone(), "{}", Reading::Parsed(result.clone()));
    assert_eq!((s.gender_male, s.gender_female, s.gender_other), (100_000_000, 850_000_000, 50_000_000));
    assert_eq!(s.ethnicity, Some("south_asian".to_string()));
    assert_eq!(s.ethnicity_confidence, 900_000_000);
    assert_eq!(s.reasoning, vec!["a common given name"]);

    let mut s = before.clone();
    onomast::parser::apply_result(
        &mut s,
        OnomasticResult { gender_male: 0, gender_female: 0, ethnicity_confidence: 0, ..result.clone() },
    );
    assert!(!s.has_gender_signal());
    assert_eq!(s.ethnicity, None);
    assert_eq!(s.ethnicity_confidence, 0);
    assert_eq!(s.reasoning, vec!["a common given name"]);

    let mut s = before.clone();
    onomast::parser::apply_result(
        &mut s,
        OnomasticResult { gender_male: 700_000_000, gender_female: 600_000_000, ethnicity: None, ..result.clone() },
    );
    assert_eq!((s.gender_male, s.gender_female, s.gender_other), (700_000_000, 600_000_000, 0));
    assert_eq!(s.ethnicity, None);
    assert_eq!(s.ethnicity_confidence, 0);

    let s = onomast::conclude(before, "oops", Reading::Failed("EOF".to_string()));
    assert_eq!(s.reasoning, vec!["Parse error: EOF - Raw: oops"]);
}

#[test]
fn the_domain_is_asked_about() {
    match domain::begin(&input()) {
        Start::Ask(domain) => assert_eq!(domain, "acme.com"),
        Start::Done(_) => panic!("there is a domain to ask about"),
    }
    let mut other = input();
    other.email = Some("no-domain".to_string());
    assert_eq!(skipped(domain::begin(&other)), InferenceSignal::new(SignalSource::Domain));
    other.email = None;
    assert_eq!(skipped(domain::begin(&other)), InferenceSignal::new(SignalSource::Domain));
    let prompt = domain::prompt("acme.com");
    assert!(prompt.starts_with("Given the email domain \"acme.com\", provide organization intelligence.\n\nIf this is a subsidiary"));
    assert!(prompt.contains("Return JSON only, no markdown:\n{\n  \"name\": \"Full org name with parent relationship if applicable\" or null,\n"));
    assert!(prompt.ends_with("\n}\n            \nIf you can't confidently identify the organization, return all nulls."));
    assert_eq!(prompt.len(), domain::prompt("").len() + 8);
}

fn response_with(reply: &str) -> String {
    let mut message = serde_json::Map::new();
    message.insert("content".to_string(), serde_json::Value::String(reply.to_string()));
    let mut choice = serde_json::Map::new();
    choice.insert("message".to_string(), serde_json::Value::Object(message));
    let mut root = serde_json::Map::new();
    root.insert(
        "choices".to_string(),
        serde_json::Value::Array(vec![serde_json::Value::Object(choice)]),
    );
    serde_json::Value::Object(root).to_string()
}

#[test]
fn the_organization_is_read_from_the_response() {
    let reply = "```json\n{\"name\": \"Acme Inc. (part of Globex)\", \"category\": \"Manufacturing / Tools\", \"employee_count\": null, \"employee_count_source\": 7}\n```";
    let found = domain::enrich("acme.com", &response_with(reply));
    assert_eq!(
        found,
        Some(OrganizationIntelligence {
            domain: "acme.com".to_string(),
            name: Some("Acme Inc. (part of Globex)".to_string()),
            category: Some("Manufacturing / Tools".to_string()),
            employee_count: None,
            employee_count_source: None,
        })
    );
    assert_eq!(
        domain::enrich("acme.com", &response_with("{}")),
        Some(OrganizationIntelligence::bare("acme.com".to_string()))
    );
    assert_eq!(domain::enrich("acme.com", &response_with("not json")), None);
    assert_eq!(domain::enrich("acme.com", "not json"), None);
    assert_eq!(domain::enrich("acme.com", "{\"choices\": []}"), None);
    assert_eq!(domain::enrich("acme.com", "{\"choices\": [{\"message\": {\"content\": 3}}]}"), None);
    let fields = domain::read_fields("{\"name\": \"N\", \"employee_count\": \"~10 employees\"}").unwrap();
    assert_eq!(fields.name, Some("N".to_string()));
    assert_eq!(fields.category, None);
    assert_eq!(fields.employee_count, Some("~10 employees".to_string()));
    assert_eq!(domain::read_fields("[1, 2]").map(|f| f.name), Some(None));
    assert_eq!(domain::read_fields("{"), None);
}

#[test]
fn the_signal_of_the_domain() {
    let org = OrganizationIntelligence {
        domain: "acme.com".to_string(),
        name: Some("Acme Inc.".to_string()),
        category: None,
        employee_count: None,
        employee_count_source: None,
    };
    let s = domain::finish("acme.com", Some(org.clone()));
    assert_eq!(s.source, SignalSource::Domain);
    assert_eq!(s.organization, Some(org.clone()));
    assert_eq!(s.reasoning, vec!["Domain acme.com enriched: Acme Inc. (unknown)"]);
    let s = domain::finish(
        "acme.com",
        Some(OrganizationIntelligence { name: None, category: Some("Tools".to_string()), ..org }),
    );
    assert_eq!(s.reasoning, vec!["Domain acme.com enriched: unknown (Tools)"]);
    assert_eq!(domain::finish("acme.com", None), InferenceSignal::new(SignalSource::Domain));
}

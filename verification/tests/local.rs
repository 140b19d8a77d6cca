use aura::local::{email_domain, is_personal_domain, is_plausible_birth_year, pick_birth_year};
use aura::{InferenceInput, InferenceSignal, LocalAgent, SignalSource, ONE};

fn input_with_email(email: &str) -> InferenceInput {
    InferenceInput {
        email: Some(email.to_string()),
        name: None,
        profile_pic_url: None,
        browsing_history: None,
    }
}

#[test]
fn extracts_organization() {
    let agent = LocalAgent::new();
    let input = input_with_email("trinity@vogue.com");

    let signal = agent.analyze(&input);
    assert_eq!(signal.organization.map(|org| org.domain), Some("vogue.com".to_string()));
}

#[test]
fn extracts_birth_year() {
    let agent = LocalAgent::new();
    let input = input_with_email("laura1992@gmail.com");

    let signal = agent.analyze(&input);
    assert_eq!(signal.birth_year, Some(1992));
}

#[test]
fn ignores_invalid_year() {
    let agent = LocalAgent::new();
    let input = input_with_email("test9162@gmail.com");

    let signal = agent.analyze(&input);
    assert_eq!(signal.birth_year, None);
}

#[test]
fn no_birth_year_no_age_probs() {
    let agent = LocalAgent::new();
    let input = input_with_email("aparna@gmail.com ");

    let signal = agent.analyze(&input);
    assert_eq!(signal.birth_year, None);
}

#[test]
fn local_signal_for_a_work_address_with_a_year() {
    let agent = LocalAgent::new();
    let signal = agent.analyze_in_year(&input_with_email("alice1990@acme.com"), 2026);
    assert_eq!(signal.source, SignalSource::Local);
    assert_eq!(signal.birth_year, Some(1990));
    let org = signal.organization.clone().unwrap();
    assert_eq!(org.domain, "acme.com");
    assert_eq!(org.name, None);
    assert_eq!(org.category, None);
    assert_eq!(org.employee_count, None);
    assert_eq!(org.employee_count_source, None);
    // 36 years old in 2026
    assert_eq!(signal.age_group_35_44, ONE);
    assert_eq!(
        signal.age_group_under_18
            + signal.age_group_18_24
            + signal.age_group_25_34
            + signal.age_group_45_54
            + signal.age_group_55_64
            + signal.age_group_65_plus,
        0
    );
    assert!(!signal.has_gender_signal());
    assert!(signal.has_age_signal());
    assert_eq!(
        signal.reasoning,
        vec![
            "Organization acme.com extracted from email domain.".to_string(),
            "Birth year 1990 extracted from email pattern.".to_string(),
        ]
    );
    assert_eq!(signal.latency_ms, 0);
    assert_eq!(signal.tokens_used, None);
    assert_eq!(signal.ethnicity, None);
}

#[test]
fn local_signal_without_an_address_is_neutral() {
    let agent = LocalAgent::new();
    let input = InferenceInput {
        email: None,
        name: Some("Alice".to_string()),
        profile_pic_url: None,
        browsing_history: None,
    };
    assert_eq!(agent.analyze_in_year(&input, 2026), InferenceSignal::new(SignalSource::Local));
    let now = agent.analyze(&input);
    assert_eq!(now.reasoning.len(), 0);
    assert_eq!(now.organization, None);
}

#[test]
fn personal_domains_name_no_organization() {
    let agent = LocalAgent::new();
    assert_eq!(agent.extract_organization("laura@gmail.com"), None);
    assert_eq!(agent.extract_organization("laura@yahoo.com"), None);
    // the domain is compared in lower case
    assert_eq!(agent.extract_organization("laura@GMail.COM"), None);
    // and handed out as it is written
    assert_eq!(agent.extract_organization("laura@Vogue.com"), Some("Vogue.com".to_string()));
    assert_eq!(agent.extract_organization("no-at-sign"), None);
    // the part between the first and the second @
    assert_eq!(agent.extract_organization("a@b.org@c.org"), Some("b.org".to_string()));
    assert_eq!(agent.extract_organization("a@"), Some(String::new()));
}

#[test]
fn domain_of_an_address() {
    assert_eq!(email_domain("trinity@vogue.com"), Some("vogue.com"));
    assert_eq!(email_domain("trinity"), None);
    assert_eq!(email_domain("@x"), Some("x"));
    assert_eq!(email_domain("a@b@c"), Some("b"));
    assert_eq!(email_domain(""), None);
    assert!(is_personal_domain("gmail.com"));
    assert!(!is_personal_domain("vogue.com"));
    assert!(!is_personal_domain("GMAIL.COM"));
}

#[test]
fn birth_year_is_the_first_plausible_run_of_four_digits() {
    let agent = LocalAgent::new();
    // 80 years at most, 13 at least
    assert_eq!(agent.extract_birth_year("x1946@a.com", 2026), Some(1946));
    assert_eq!(agent.extract_birth_year("x1945@a.com", 2026), None);
    assert_eq!(agent.extract_birth_year("x2013@a.com", 2026), Some(2013));
    assert_eq!(agent.extract_birth_year("x2014@a.com", 2026), None);
    // the first run that is plausible wins
    assert_eq!(agent.extract_birth_year("9162-1988-1990@a.com", 2026), Some(1988));
    // runs do not overlap: 1199 and 0xxx, not 1990
    assert_eq!(agent.extract_birth_year("11990@a.com", 2026), None);
    assert_eq!(agent.extract_birth_year("119901990@a.com", 2026), None);
    assert_eq!(agent.extract_birth_year("1199 1990@a.com", 2026), Some(1990));
    // only the part before the @ is searched
    assert_eq!(agent.extract_birth_year("alice@1990.com", 2026), None);
    assert_eq!(agent.extract_birth_year("alice1990", 2026), Some(1990));
    // digits of other scripts are found and then not read as a number
    assert_eq!(agent.extract_birth_year("\u{0661}\u{0669}\u{0669}\u{0660}@a.com", 2026), None);
    assert_eq!(agent.extract_birth_year("", 2026), None);
}

#[test]
fn picking_a_year_from_runs() {
    let runs = vec!["0007".to_string(), "abcd".to_string(), "2000".to_string(), "1999".to_string()];
    assert_eq!(pick_birth_year(&runs, 2026), Some(2000));
    assert_eq!(pick_birth_year(&runs, 2090), None);
    assert_eq!(pick_birth_year(&Vec::new(), 2026), None);
    assert_eq!(pick_birth_year(&vec!["+1990".to_string()], 2026), Some(1990));
    assert_eq!(pick_birth_year(&vec!["99999".to_string(), "1990".to_string()], 2026), Some(1990));
    assert!(is_plausible_birth_year(1990, 2026));
    assert!(!is_plausible_birth_year(1990, 2000));
    assert!(!is_plausible_birth_year(0, i32::MIN));
    assert!(!is_plausible_birth_year(u16::MAX, i32::MAX));
    assert!(is_plausible_birth_year(7, 20));
}

#[test]
fn age_distribution_of_a_birth_year() {
    let agent = LocalAgent::new();
    assert_eq!(agent.birth_year_to_age_probs(2010, 2026), [ONE, 0, 0, 0, 0, 0, 0]);
    assert_eq!(agent.birth_year_to_age_probs(2008, 2026), [0, ONE, 0, 0, 0, 0, 0]);
    assert_eq!(agent.birth_year_to_age_probs(1961, 2026), [0, 0, 0, 0, 0, 0, ONE]);
    // a year of birth in the future falls into the last bracket
    assert_eq!(agent.birth_year_to_age_probs(2030, 2026), [0, 0, 0, 0, 0, 0, ONE]);
    assert_eq!(agent.birth_year_to_age_probs(u16::MAX, i32::MIN), [0, 0, 0, 0, 0, 0, ONE]);
}

#[test]
fn the_current_year_decides_what_is_plausible() {
    let now = chrono::Datelike::year(&chrono::Utc::now());
    let agent = LocalAgent::new();
    let born = now - 30;
    let signal = agent.analyze(&input_with_email(&format!("x{born}@acme.com")));
    assert_eq!(signal.birth_year, Some(born as u16));
    assert_eq!(signal.age_group_25_34, ONE);
    assert!(signal.latency_ms < 10_000);
    let too_young = now - 12;
    let signal = agent.analyze(&input_with_email(&format!("x{too_young}@acme.com")));
    assert_eq!(signal.birth_year, None);
    assert!(!signal.has_age_signal());
    let too_old = now - 81;
    let signal = agent.analyze(&input_with_email(&format!("x{too_old}@acme.com")));
    assert_eq!(signal.birth_year, None);
    let timed = InferenceSignal::new(SignalSource::Vision).with_latency(77);
    assert_eq!(timed.latency_ms, 77);
    assert_eq!(timed.with_latency(0), InferenceSignal::new(SignalSource::Vision));
}

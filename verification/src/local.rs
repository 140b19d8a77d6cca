//! The local producer: what an email address tells without asking anyone.
//!
//! The domain of the address names an organization unless it belongs to a
//! provider of personal mailboxes, and four digits in the part before the
//! `@` are read as a birth year where the year is plausible.

use vstd::prelude::*;
use vstd::string::StringExecFns;
use crate::clock::{elapsed_ms, now, start_clock};
use crate::probability::as_nats;
use crate::signal::{texts, InferenceInput, InferenceSignal, OrganizationView, SignalView};
use crate::text::{
    chars_of, decimal, decimal_text, decimal_u16, find_char, parse_u16, position_of, same_text,
};
use crate::types::{lemma_one_hot, one_hot, AgeGroup, OrganizationIntelligence, SignalSource};

verus! {

/// The domains of the providers of personal mailboxes, in lower case.
pub open spec fn personal_domains() -> Seq<Seq<char>> {
    seq![
        "gmail.com"@,
        "googlemail.com"@,
        "yahoo.com"@,
        "hotmail.com"@,
        "outlook.com"@,
        "live.com"@,
        "msn.com"@,
        "icloud.com"@,
        "me.com"@,
        "aol.com"@,
        "protonmail.com"@,
        "proton.me"@,
        "mail.com"@,
        "gmx.com"@,
        "yandex.com"@,
        "zoho.com"@,
    ]
}

/// Whether a domain, given in lower case, belongs to a provider of
/// personal mailboxes.
pub open spec fn is_personal(domain: Seq<char>) -> bool {
    personal_domains().contains(domain)
}

/// The part of an address before its first `@`; all of it where it has
/// none.
pub open spec fn local_part(email: Seq<char>) -> Seq<char> {
    match position_of(email, '@', 0) {
        Some(at) => email.take(at),
        None => email,
    }
}

/// The part of an address between its first `@` and its second, or its end
/// where it has no second; none where it has no `@`.
pub open spec fn domain_part(email: Seq<char>) -> Option<Seq<char>> {
    match position_of(email, '@', 0) {
        Some(at) => Some(
            match position_of(email, '@', at + 1) {
                Some(next) => email.subrange(at + 1, next),
                None => email.skip(at + 1),
            },
        ),
        None => None,
    }
}

/// What `str::to_lowercase` of the standard library returns for a text: its
/// lower case as Unicode defines it.
pub uninterp spec fn lowercase_of(text: Seq<char>) -> Seq<char>;

/// What a regular expression finds in a text: the matches that
/// `regex::Regex::find_iter` yields, in their order, and none where
/// `regex::Regex::new` does not accept the expression.
pub uninterp spec fn regex_matches(pattern: Seq<char>, haystack: Seq<char>) -> Option<
    Seq<Seq<char>>,
>;

/// The regular expression for a run of four digits.
pub open spec fn four_digits() -> Seq<char> {
    "\\d{4}"@
}

/// A year of birth is plausible where the person is at least 13 and at
/// most 80 years old in the current year.
pub open spec fn plausible_birth_year(year: u16, current_year: i32) -> bool {
    current_year - 80 <= year <= current_year - 13
}

/// Whether a text is a number that is a plausible year of birth.
pub open spec fn names_birth_year(text: Seq<char>, current_year: i32) -> bool {
    match decimal_u16(text) {
        Some(year) => plausible_birth_year(year, current_year),
        None => false,
    }
}

/// The first of the texts that is a plausible year of birth, as a number.
pub open spec fn first_plausible_year(runs: Seq<Seq<char>>, current_year: i32) -> Option<u16>
    decreases runs.len(),
{
    if runs.len() == 0 {
        None
    } else {
        match first_plausible_year(runs.drop_last(), current_year) {
            Some(year) => Some(year),
            None => if names_birth_year(runs.last(), current_year) {
                decimal_u16(runs.last())
            } else {
                None
            },
        }
    }
}

/// The organization that the domain of an address names: the domain as it
/// is written, unless its lower case is the domain of a provider of
/// personal mailboxes.
pub open spec fn organization_of(email: Seq<char>) -> Option<Seq<char>> {
    match domain_part(email) {
        Some(domain) => if is_personal(lowercase_of(domain)) {
            None
        } else {
            Some(domain)
        },
        None => None,
    }
}

/// The year of birth that an address tells: the first run of four digits
/// before the `@` that is a plausible year.
pub open spec fn birth_year_in(email: Seq<char>, current_year: i32) -> Option<u16> {
    match regex_matches(four_digits(), local_part(email)) {
        Some(runs) => first_plausible_year(runs, current_year),
        None => None,
    }
}

/// The note on an organization that was found.
pub open spec fn organization_note(domain: Seq<char>) -> Seq<char> {
    "Organization "@ + domain + " extracted from email domain."@
}

/// The note on a year of birth that was found.
pub open spec fn birth_year_note(year: u16) -> Seq<char> {
    "Birth year "@ + decimal(year as nat) + " extracted from email pattern."@
}

/// The signal of the local producer for a request, in a given year.
pub open spec fn local_signal(input: InferenceInput, current_year: i32) -> SignalView {
    match input.email {
        None => SignalView::neutral(SignalSource::Local),
        Some(email) => {
            let organization = organization_of(email@);
            let year = birth_year_in(email@, current_year);
            SignalView {
                age: match year {
                    Some(y) => one_hot(AgeGroup::of_age(current_year - y).position()),
                    None => SignalView::neutral(SignalSource::Local).age,
                },
                birth_year: match year {
                    Some(y) => Some(y as nat),
                    None => None,
                },
                organization: match organization {
                    Some(domain) => Some(
                        OrganizationView {
                            domain,
                            name: None,
                            category: None,
                            employee_count: None,
                            employee_count_source: None,
                        },
                    ),
                    None => None,
                },
                reasoning: (match organization {
                    Some(domain) => seq![organization_note(domain)],
                    None => Seq::empty(),
                }) + (match year {
                    Some(y) => seq![birth_year_note(y)],
                    None => Seq::empty(),
                }),
                ..SignalView::neutral(SignalSource::Local)
            }
        },
    }
}

/// `str::to_lowercase`: the text in lower case, which [`lowercase_of`]
/// names.
#[verifier::external_body]
fn lowercase(text: &str) -> (lowered: String)
    ensures
        lowered@ == lowercase_of(text@),
{
    text.to_lowercase()
}

/// `regex::Regex::new` for the expression and `find_iter` on the text: the
/// matches as strings, in the order in which the iterator yields them,
/// which [`regex_matches`] names; none where `new` fails.
#[verifier::external_body]
fn find_all(pattern: &str, haystack: &str) -> (runs: Option<Vec<String>>)
    ensures
        match runs {
            Some(found) => regex_matches(pattern@, haystack@) == Some(texts(found@)),
            None => regex_matches(pattern@, haystack@) is None,
        },
{
    match regex::Regex::new(pattern) {
        Ok(re) => Some(re.find_iter(haystack).map(|m| m.as_str().to_string()).collect()),
        Err(_) => None,
    }
}

/// The domains of the providers of personal mailboxes, in lower case.
pub fn personal_email_domains() -> (domains: Vec<&'static str>)
    ensures
        domains@.len() == personal_domains().len(),
        forall|i: int| 0 <= i < domains@.len() ==> domains@[i]@ == personal_domains()[i],
{
    let mut domains: Vec<&'static str> = Vec::new();
    domains.push("gmail.com");
    domains.push("googlemail.com");
    domains.push("yahoo.com");
    domains.push("hotmail.com");
    domains.push("outlook.com");
    domains.push("live.com");
    domains.push("msn.com");
    domains.push("icloud.com");
    domains.push("me.com");
    domains.push("aol.com");
    domains.push("protonmail.com");
    domains.push("proton.me");
    domains.push("mail.com");
    domains.push("gmx.com");
    domains.push("yandex.com");
    domains.push("zoho.com");
    domains
}

/// Whether a domain, given in lower case, belongs to a provider of
/// personal mailboxes.
pub fn is_personal_domain(domain: &str) -> (personal: bool)
    ensures
        personal == is_personal(domain@),
{
    let known = personal_email_domains();
    let mut i: usize = 0;
    while i < known.len()
        invariant
            i <= known.len(),
            known@.len() == personal_domains().len(),
            forall|j: int| 0 <= j < known@.len() ==> known@[j]@ == personal_domains()[j],
            forall|j: int| 0 <= j < i ==> personal_domains()[j] != domain@,
        decreases known.len() - i,
    {
        if same_text(known[i], domain) {
            proof {
                assert(personal_domains()[i as int] == domain@);
            }
            return true;
        }
        i = i + 1;
    }
    false
}

/// The organization that a domain names, given the domain in lower case
/// too: the domain as it is written, unless it belongs to a provider of
/// personal mailboxes.
pub fn organization_from(domain: &str, lowered: &str) -> (organization: Option<String>)
    ensures
        match organization {
            Some(name) => !is_personal(lowered@) && name@ == domain@,
            None => is_personal(lowered@),
        },
{
    if is_personal_domain(lowered) {
        None
    } else {
        Some(String::from_str(domain))
    }
}

/// Whether a year of birth is plausible in the current year.
pub fn is_plausible_birth_year(year: u16, current_year: i32) -> (plausible: bool)
    ensures
        plausible == plausible_birth_year(year, current_year),
{
    let y: i64 = year as i64;
    let now: i64 = current_year as i64;
    now - 80 <= y && y <= now - 13
}

/// The first of the texts that is a plausible year of birth, as a number:
/// [`first_plausible_year`] says which.
pub fn pick_birth_year(runs: &Vec<String>, current_year: i32) -> (year: Option<u16>)
    ensures
        year == first_plausible_year(texts(runs@), current_year),
        year matches Some(found) ==> plausible_birth_year(found, current_year),
{
    proof {
        lemma_first_plausible_year(texts(runs@), current_year);
    }
    let mut i: usize = 0;
    while i < runs.len()
        invariant
            i <= runs.len(),
            first_plausible_year(texts(runs@).take(i as int), current_year) is None,
        decreases runs.len() - i,
    {
        proof {
            assert(texts(runs@).take(i as int + 1).drop_last() =~= texts(runs@).take(i as int));
        }
        match parse_u16(runs[i].as_str()) {
            Some(year) => {
                if is_plausible_birth_year(year, current_year) {
                    proof {
                        lemma_first_plausible_year_stays(
                            texts(runs@),
                            i as int + 1,
                            current_year,
                        );
                    }
                    return Some(year);
                }
            },
            None => {},
        }
        i = i + 1;
    }
    proof {
        assert(texts(runs@).take(i as int) =~= texts(runs@));
    }
    None
}

/// The year that is picked is plausible, and it is the number of one of the
/// texts.
pub proof fn lemma_first_plausible_year(runs: Seq<Seq<char>>, current_year: i32)
    ensures
        first_plausible_year(runs, current_year) matches Some(year) ==> plausible_birth_year(
            year,
            current_year,
        ) && exists|i: int| 0 <= i < runs.len() && decimal_u16(#[trigger] runs[i]) == Some(year),
        first_plausible_year(runs, current_year) is None <==> forall|i: int|
            0 <= i < runs.len() ==> !names_birth_year(#[trigger] runs[i], current_year),
    decreases runs.len(),
{
    if runs.len() > 0 {
        let front = runs.drop_last();
        lemma_first_plausible_year(front, current_year);
        assert forall|i: int| 0 <= i < front.len() implies front[i] == runs[i] by {}
        match first_plausible_year(front, current_year) {
            Some(year) => {
                let i = choose|i: int|
                    0 <= i < front.len() && decimal_u16(#[trigger] front[i]) == Some(year);
                assert(decimal_u16(runs[i]) == Some(year));
                assert(names_birth_year(runs[i], current_year));
            },
            None => {
                assert forall|i: int| 0 <= i < runs.len() - 1 implies !names_birth_year(
                    #[trigger] runs[i],
                    current_year,
                ) by {
                    assert(!names_birth_year(front[i], current_year));
                }
                if names_birth_year(runs.last(), current_year) {
                    assert(decimal_u16(runs[runs.len() - 1]) == first_plausible_year(
                        runs,
                        current_year,
                    ));
                    assert(names_birth_year(runs[runs.len() - 1], current_year));
                }
            },
        }
    }
}

/// A year that was found among the first texts stays the answer however
/// many texts follow.
pub proof fn lemma_first_plausible_year_stays(runs: Seq<Seq<char>>, k: int, current_year: i32)
    requires
        0 <= k <= runs.len(),
        first_plausible_year(runs.take(k), current_year) is Some,
    ensures
        first_plausible_year(runs, current_year) == first_plausible_year(
            runs.take(k),
            current_year,
        ),
    decreases runs.len() - k,
{
    if k == runs.len() {
        assert(runs.take(k) =~= runs);
    } else {
        assert(runs.drop_last().take(k) =~= runs.take(k));
        lemma_first_plausible_year_stays(runs.drop_last(), k, current_year);
    }
}

/// The domain of an address: [`domain_part`] says which part that is.
pub fn email_domain(email: &str) -> (domain: Option<&str>)
    ensures
        match domain {
            Some(part) => domain_part(email@) == Some(part@),
            None => domain_part(email@) is None,
        },
{
    let chars = chars_of(email);
    let length: usize = chars.len();
    match find_char(&chars, '@', 0) {
        Some(at) => {
            let end: usize = match find_char(&chars, '@', at + 1) {
                Some(next) => next,
                None => length,
            };
            proof {
                assert(email@.skip(at as int + 1) =~= email@.subrange(
                    at as int + 1,
                    email@.len() as int,
                ));
            }
            Some(email.substring_char(at + 1, end))
        },
        None => None,
    }
}

/// The local producer.
pub struct LocalAgent;

impl LocalAgent {
    pub fn new() -> (agent: LocalAgent) {
        LocalAgent
    }

    /// The organization that the domain of an address names:
    /// [`organization_of`] says which.
    pub fn extract_organization(&self, email: &str) -> (organization: Option<String>)
        ensures
            match organization {
                Some(name) => organization_of(email@) == Some(name@),
                None => organization_of(email@) is None,
            },
    {
        match email_domain(email) {
            Some(domain) => {
                let lowered = lowercase(domain);
                organization_from(domain, lowered.as_str())
            },
            None => None,
        }
    }

    /// The year of birth that an address tells in the given year:
    /// [`birth_year_in`] says which.
    pub fn extract_birth_year(&self, email: &str, current_year: i32) -> (year: Option<u16>)
        ensures
            year == birth_year_in(email@, current_year),
            year matches Some(found) ==> plausible_birth_year(found, current_year),
    {
        let chars = chars_of(email);
        let end: usize = match find_char(&chars, '@', 0) {
            Some(at) => at,
            None => chars.len(),
        };
        proof {
            assert(email@.take(email@.len() as int) =~= email@);
        }
        let haystack = email.substring_char(0, end);
        match find_all("\\d{4}", haystack) {
            Some(runs) => pick_birth_year(&runs, current_year),
            None => None,
        }
    }

    /// The age distribution of a person born in the given year: certain of
    /// the bracket of the age that the person reaches in the current year.
    pub fn birth_year_to_age_probs(&self, birth_year: u16, current_year: i32) -> (probs: [u32; 7])
        ensures
            as_nats(probs@) == one_hot(AgeGroup::of_age(current_year - birth_year).position()),
    {
        let age: i64 = current_year as i64 - birth_year as i64;
        let clipped: i32 = if age < 0 {
            -1
        } else {
            age as i32
        };
        AgeGroup::from_age(clipped).to_one_hot()
    }

    /// The signal of the local producer for a request, in a given year and
    /// with no latency yet: [`local_signal`] says what it holds.
    pub fn analyze_in_year(&self, input: &InferenceInput, current_year: i32) -> (signal:
        InferenceSignal)
        ensures
            signal@ == local_signal(*input, current_year),
            signal.well_formed(),
            signal.birth_year matches Some(year) ==> plausible_birth_year(year, current_year),
    {
        let mut signal = InferenceSignal::new(SignalSource::Local);
        match &input.email {
            Some(email) => {
                match self.extract_organization(email.as_str()) {
                    Some(domain) => {
                        let mut note = String::from_str("Organization ");
                        note.append(domain.as_str());
                        note.append(" extracted from email domain.");
                        signal.organization = Some(OrganizationIntelligence::bare(domain));
                        signal.reasoning.push(note);
                    },
                    None => {},
                }
                match self.extract_birth_year(email.as_str(), current_year) {
                    Some(year) => {
                        signal.birth_year = Some(year);
                        proof {
                            lemma_one_hot(AgeGroup::of_age(current_year - year).position());
                        }
                        signal.set_age_probs(self.birth_year_to_age_probs(year, current_year));
                        let mut note = String::from_str("Birth year ");
                        note.append(decimal_text(year as u64).as_str());
                        note.append(" extracted from email pattern.");
                        signal.reasoning.push(note);
                    },
                    None => {},
                }
                proof {
                    assert(signal@.reasoning =~= local_signal(*input, current_year).reasoning);
                    assert(signal@.gender =~= local_signal(*input, current_year).gender);
                    assert(signal@.age =~= local_signal(*input, current_year).age);
                }
            },
            None => {},
        }
        signal
    }

    /// The signal of the local producer for a request, now: what
    /// [`local_signal`] says for the current year, whichever that is, with
    /// the time that it took.
    pub fn analyze(&self, input: &InferenceInput) -> (signal: InferenceSignal)
        ensures
            exists|current_year: i32|
                signal@ == (SignalView {
                    latency_ms: signal.latency_ms as nat,
                    ..#[trigger] local_signal(*input, current_year)
                }) && (signal.birth_year matches Some(year) ==> plausible_birth_year(
                    year,
                    current_year,
                )),
            signal.well_formed(),
    {
        let start = start_clock();
        let year = now().year;
        let signal = self.analyze_in_year(input, year).with_latency(elapsed_ms(&start));
        proof {
            assert(signal@ == (SignalView {
                latency_ms: signal.latency_ms as nat,
                ..local_signal(*input, year)
            }));
        }
        signal
    }
}

} // verus!

use leanpub_login::extract::Anchor;
use leanpub_login::outcome::verify_login;
use leanpub_login::poll::run_poll;
use leanpub_login::workflow::{credentials_present, initial, step, Action, Event, Outcome, Stage};

const PUBLISHED_URL: &str = "https://leanpub.com/author_dashboard/books/published";

#[test]
fn verification_succeeds_on_exact_url_and_untrimmed_title() {
    assert!(verify_login(PUBLISHED_URL, " Leanpub - Your Books "));
    assert!(verify_login(PUBLISHED_URL, "Leanpub - Your Books"));
}

#[test]
fn verification_fails_on_any_mismatch() {
    assert!(!verify_login("https://leanpub.com/login", " Leanpub - Your Books "));
    assert!(!verify_login(PUBLISHED_URL, "Leanpub - Sign In"));
    assert!(!verify_login(PUBLISHED_URL, "Leanpub -  Your Books"));
    assert!(!verify_login("", ""));
}

#[test]
fn poll_stops_exactly_at_first_true_attempt() {
    let mut outcomes = vec![false; 30];
    outcomes[6] = true;
    let (attempts, satisfied) = run_poll(&outcomes, 30);
    assert_eq!(attempts, 7);
    assert!(satisfied);
}

#[test]
fn poll_first_attempt_and_exhaustion() {
    let outcomes = vec![true; 30];
    assert_eq!(run_poll(&outcomes, 30), (1, true));
    let never = vec![false; 30];
    assert_eq!(run_poll(&never, 30), (30, false));
}

#[test]
fn credentials_present_requires_both() {
    assert!(credentials_present("a@b.c", "secret"));
    assert!(!credentials_present("", "secret"));
    assert!(!credentials_present("a@b.c", ""));
    assert!(!credentials_present("", ""));
}

fn expect_step(stage: Stage, event: Event) -> (Stage, Action) {
    step(stage, event).expect("stage must accept its own event")
}

#[test]
fn missing_credentials_end_the_workflow_without_submission() {
    let (stage, action) = expect_step(
        Stage::CheckingCredentials,
        Event::CredentialsLoaded { email: String::new(), password: "p".to_string() },
    );
    assert!(matches!(action, Action::Stop));
    match stage {
        Stage::Finished { outcome, books } => {
            assert!(matches!(outcome, Outcome::MissingCredentials));
            assert!(books.is_empty());
        }
        _ => panic!("expected a finished workflow"),
    }
}

#[test]
fn present_credentials_are_submitted_verbatim() {
    let (stage, action) = expect_step(
        Stage::CheckingCredentials,
        Event::CredentialsLoaded { email: "a@b.c".to_string(), password: "pw".to_string() },
    );
    assert!(matches!(stage, Stage::SubmittingForm));
    match action {
        Action::FillAndSubmit { email, password } => {
            assert_eq!(email, "a@b.c");
            assert_eq!(password, "pw");
        }
        _ => panic!("expected a fill-and-submit action"),
    }
}

#[test]
fn token_poll_proceeds_on_value_or_exhaustion() {
    let (stage, action) = expect_step(
        Stage::PollingToken { attempt: 0 },
        Event::TokenValue { value: "tok".to_string() },
    );
    assert!(matches!(stage, Stage::InspectingForm));
    assert!(matches!(action, Action::InspectForm));

    let (stage, action) = expect_step(
        Stage::PollingToken { attempt: 3 },
        Event::TokenValue { value: String::new() },
    );
    assert!(matches!(stage, Stage::PollingToken { attempt: 4 }));
    assert!(matches!(action, Action::WaitThenReadTokenField));

    let (stage, _) = expect_step(
        Stage::PollingToken { attempt: 29 },
        Event::TokenValue { value: String::new() },
    );
    assert!(matches!(stage, Stage::InspectingForm));
}

#[test]
fn auth_poll_heuristic_and_budget() {
    let (stage, _) = expect_step(
        Stage::PollingAuth { attempt: 0 },
        Event::UrlRead { url: "https://leanpub.com/author_dashboard".to_string() },
    );
    assert!(matches!(stage, Stage::ReadingIndicators));

    let (stage, _) = expect_step(
        Stage::PollingAuth { attempt: 0 },
        Event::UrlRead { url: "https://leanpub.com/u/someone".to_string() },
    );
    assert!(matches!(stage, Stage::ReadingIndicators));

    let (stage, action) = expect_step(
        Stage::PollingAuth { attempt: 0 },
        Event::UrlRead { url: "https://leanpub.com/login".to_string() },
    );
    assert!(matches!(stage, Stage::PollingAuth { attempt: 1 }));
    assert!(matches!(action, Action::WaitThenReadUrl));

    let (stage, _) = expect_step(
        Stage::PollingAuth { attempt: 19 },
        Event::UrlRead { url: "https://leanpub.com/login".to_string() },
    );
    assert!(matches!(stage, Stage::ReadingIndicators));
}

#[test]
fn unexpected_event_is_refused() {
    assert!(step(Stage::NavigatingToLogin, Event::Submitted { both_found: true }).is_none());
    assert!(step(Stage::Extracting, Event::LoginNavigated { ok: true }).is_none());
}

#[test]
fn full_happy_path_reaches_success_with_books() {
    let (stage, action) = initial();
    assert!(matches!(stage, Stage::NavigatingToLogin));
    assert!(matches!(action, Action::NavigateToLogin));

    let (stage, _) = expect_step(stage, Event::LoginNavigated { ok: true });
    let (stage, _) = expect_step(stage, Event::TokenValue { value: "tok".to_string() });
    let (stage, _) = expect_step(stage, Event::FormInspected { fields: Vec::new() });
    let (stage, _) = expect_step(
        stage,
        Event::CredentialsLoaded { email: "a@b.c".to_string(), password: "pw".to_string() },
    );
    let (stage, _) = expect_step(stage, Event::Submitted { both_found: true });
    let (stage, _) = expect_step(
        stage,
        Event::UrlRead { url: PUBLISHED_URL.to_string() },
    );
    let (stage, _) = expect_step(
        stage,
        Event::IndicatorsRead { title: "Leanpub".to_string(), indicator: None },
    );
    let (stage, _) = expect_step(stage, Event::PublishedNavigated { ok: true });
    let (stage, _) = expect_step(
        stage,
        Event::PageStateRead {
            url: PUBLISHED_URL.to_string(),
            title: " Leanpub - Your Books ".to_string(),
        },
    );
    assert!(matches!(stage, Stage::Extracting));
    let anchors = vec![Anchor {
        href: "/my-book/overview".to_string(),
        text: "My Book".to_string(),
    }];
    let (stage, action) = expect_step(stage, Event::AnchorsRead { anchors });
    assert!(matches!(action, Action::Stop));
    match stage {
        Stage::Finished { outcome, books } => {
            assert!(matches!(outcome, Outcome::Success));
            assert_eq!(books.len(), 1);
            assert_eq!(books[0].slug, "my-book");
            assert_eq!(books[0].title, "My Book");
        }
        _ => panic!("expected a finished workflow"),
    }
}

#[test]
fn failed_verification_aborts() {
    let (stage, _) = expect_step(Stage::VerifyNavigating, Event::PublishedNavigated { ok: false });
    assert!(matches!(stage, Stage::Finished { outcome: Outcome::VerificationFailed, .. }));

    let (stage, _) = expect_step(
        Stage::CheckingOutcome,
        Event::PageStateRead {
            url: "https://leanpub.com/login".to_string(),
            title: " Leanpub - Your Books ".to_string(),
        },
    );
    assert!(matches!(stage, Stage::Finished { outcome: Outcome::VerificationFailed, .. }));
}

#[test]
fn failed_login_navigation_aborts() {
    let (stage, action) = expect_step(Stage::NavigatingToLogin, Event::LoginNavigated { ok: false });
    assert!(matches!(stage, Stage::Finished { outcome: Outcome::LoginPageUnreachable, .. }));
    assert!(matches!(action, Action::Stop));
}

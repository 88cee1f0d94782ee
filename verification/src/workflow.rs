//! The login workflow as an explicit state machine: a linear sequence of
//! stages from loading the login page to reporting the extracted books, with
//! two bounded polling loops as its only internal repetition. Each call of
//! `step` takes the current stage and the event the browser-driving shell
//! observed, and decides the next stage and the next action to perform; the
//! shell performs actions and feeds events back, and decides nothing itself.

use vstd::prelude::*;

use crate::extract::{Anchor, BookLink, anchor_views, extract_spec, fetch_published_books,
    link_views};
use crate::outcome::{login_verified, verify_login};
use crate::text::{contains_seq, str_contains};

verus! {

/// How many times the anti-bot token field is read before the workflow
/// proceeds without it.
pub const TOKEN_POLL_ATTEMPTS: u32 = 30;

/// How many times the page URL is read for the authenticated-area heuristic
/// before the workflow proceeds regardless.
pub const AUTH_POLL_ATTEMPTS: u32 = 20;

/// A read-only snapshot of one input element of the login form, captured for
/// the report only: the workflow takes no decision from it.
pub struct FormField {
    pub name: String,
    pub value: String,
    pub field_type: String,
}

/// How a finished workflow ended.
pub enum Outcome {
    /// The login page itself could not be loaded.
    LoginPageUnreachable,
    /// A credential was empty or unset; the form was never filled.
    MissingCredentials,
    /// The published-books page did not show the expected URL and title.
    VerificationFailed,
    /// The login was verified and the books were extracted.
    Success,
}

/// Where the workflow stands. A polling stage counts the predicate
/// evaluations already answered.
pub enum Stage {
    NavigatingToLogin,
    PollingToken { attempt: u32 },
    InspectingForm,
    CheckingCredentials,
    SubmittingForm,
    PollingAuth { attempt: u32 },
    ReadingIndicators,
    VerifyNavigating,
    CheckingOutcome,
    Extracting,
    Finished { outcome: Outcome, books: Vec<BookLink> },
}

/// What the shell observed while performing the previous action.
pub enum Event {
    LoginNavigated { ok: bool },
    TokenValue { value: String },
    FormInspected { fields: Vec<FormField> },
    CredentialsLoaded { email: String, password: String },
    Submitted { both_found: bool },
    UrlRead { url: String },
    IndicatorsRead { title: String, indicator: Option<String> },
    PublishedNavigated { ok: bool },
    PageStateRead { url: String, title: String },
    AnchorsRead { anchors: Vec<Anchor> },
}

/// What the shell is to do next. A `WaitThen...` action inserts the fixed
/// inter-attempt delay first; `SettleThenReadPageState` inserts the longer
/// settle delay of the verification step.
pub enum Action {
    NavigateToLogin,
    ReadTokenField,
    WaitThenReadTokenField,
    InspectForm,
    LoadCredentials,
    FillAndSubmit { email: String, password: String },
    ReadUrl,
    WaitThenReadUrl,
    ReadIndicators,
    NavigateToPublished,
    SettleThenReadPageState,
    CollectAnchors,
    Stop,
}

/// The guessed authenticated-area test applied while polling after
/// submission: the URL names the author dashboard or a user page.
pub open spec fn auth_url_heuristic(url: Seq<char>) -> bool {
    contains_seq(url, "author_dashboard"@) || contains_seq(url, "/u/"@)
}

/// A polling stage never stands beyond its attempt budget.
pub open spec fn stage_wf(stage: Stage) -> bool {
    match stage {
        Stage::PollingToken { attempt } => attempt < TOKEN_POLL_ATTEMPTS,
        Stage::PollingAuth { attempt } => attempt < AUTH_POLL_ATTEMPTS,
        _ => true,
    }
}

/// The event a stage is waiting for: `step` answers exactly these pairs.
pub open spec fn expects(stage: Stage, event: Event) -> bool {
    match (stage, event) {
        (Stage::NavigatingToLogin, Event::LoginNavigated { .. }) => true,
        (Stage::PollingToken { .. }, Event::TokenValue { .. }) => true,
        (Stage::InspectingForm, Event::FormInspected { .. }) => true,
        (Stage::CheckingCredentials, Event::CredentialsLoaded { .. }) => true,
        (Stage::SubmittingForm, Event::Submitted { .. }) => true,
        (Stage::PollingAuth { .. }, Event::UrlRead { .. }) => true,
        (Stage::ReadingIndicators, Event::IndicatorsRead { .. }) => true,
        (Stage::VerifyNavigating, Event::PublishedNavigated { .. }) => true,
        (Stage::CheckingOutcome, Event::PageStateRead { .. }) => true,
        (Stage::Extracting, Event::AnchorsRead { .. }) => true,
        _ => false,
    }
}

/// A login form is only filled and submitted when both credential values are
/// present and non-empty.
pub fn credentials_present(email: &str, password: &str) -> (r: bool)
    ensures
        r == (email@.len() > 0 && password@.len() > 0),
{
    !email.is_empty() && !password.is_empty()
}

/// The workflow starts by loading the login page.
pub fn initial() -> (r: (Stage, Action))
    ensures
        r == (Stage::NavigatingToLogin, Action::NavigateToLogin),
{
    (Stage::NavigatingToLogin, Action::NavigateToLogin)
}

/// One decision of the workflow: from the current stage and the observed
/// event to the next stage and the next action. Every decision the original
/// flow takes is stated here; a pair the stage does not expect is answered
/// with nothing.
pub fn step(stage: Stage, event: Event) -> (r: Option<(Stage, Action)>)
    requires
        stage_wf(stage),
    ensures
        r is Some <==> expects(stage, event),
        r is Some ==> stage_wf((r->0).0),
        // Navigation failure on the login page ends the workflow; success
        // starts the token poll.
        stage is NavigatingToLogin ==> (event matches Event::LoginNavigated { ok } ==> (if ok {
            r == Some((Stage::PollingToken { attempt: 0u32 }, Action::ReadTokenField))
        } else {
            ((r->0).0 matches Stage::Finished { outcome, books } && outcome
                is LoginPageUnreachable && books@.len() == 0 && (r->0).1 is Stop)
        })),
        // The token poll stops at the first non-empty value, or after its
        // last attempt; either way the workflow proceeds — exhaustion is
        // never fatal.
        stage matches Stage::PollingToken { attempt } ==> (event matches Event::TokenValue {
            value,
        } ==> (if value@.len() > 0 || attempt + 1 >= TOKEN_POLL_ATTEMPTS {
            r == Some((Stage::InspectingForm, Action::InspectForm))
        } else {
            r == Some(
                (Stage::PollingToken { attempt: (attempt + 1) as u32 },
                Action::WaitThenReadTokenField),
            )
        })),
        // The form inspection feeds the report only.
        stage is InspectingForm && event is FormInspected ==> r == Some(
            (Stage::CheckingCredentials, Action::LoadCredentials),
        ),
        // A missing credential skips the fill-and-submit step and ends the
        // workflow early, without error; otherwise the fill carries exactly
        // the loaded values.
        stage is CheckingCredentials ==> (event matches Event::CredentialsLoaded {
            email,
            password,
        } ==> (if email@.len() == 0 || password@.len() == 0 {
            ((r->0).0 matches Stage::Finished { outcome, books } && outcome is MissingCredentials
                && books@.len() == 0 && (r->0).1 is Stop)
        } else {
            r == Some((Stage::SubmittingForm, Action::FillAndSubmit { email, password }))
        })),
        // Submission reported, found or not, the auth poll starts.
        stage is SubmittingForm && event is Submitted ==> r == Some(
            (Stage::PollingAuth { attempt: 0u32 }, Action::ReadUrl),
        ),
        // The auth poll stops once the URL looks authenticated, or after its
        // last attempt; either way the workflow proceeds.
        stage matches Stage::PollingAuth { attempt } ==> (event matches Event::UrlRead { url }
            ==> (if auth_url_heuristic(url@) || attempt + 1 >= AUTH_POLL_ATTEMPTS {
            r == Some((Stage::ReadingIndicators, Action::ReadIndicators))
        } else {
            r == Some(
                (Stage::PollingAuth { attempt: (attempt + 1) as u32 }, Action::WaitThenReadUrl),
            )
        })),
        // The title and user-menu read feeds the report only.
        stage is ReadingIndicators && event is IndicatorsRead ==> r == Some(
            (Stage::VerifyNavigating, Action::NavigateToPublished),
        ),
        // A navigation error during verification counts as a failed
        // verification, not a propagated error.
        stage is VerifyNavigating ==> (event matches Event::PublishedNavigated { ok } ==> (if ok {
            r == Some((Stage::CheckingOutcome, Action::SettleThenReadPageState))
        } else {
            ((r->0).0 matches Stage::Finished { outcome, books } && outcome is VerificationFailed
                && books@.len() == 0 && (r->0).1 is Stop)
        })),
        // Verification itself: both the final URL and the trimmed title must
        // match their expected literals.
        stage is CheckingOutcome ==> (event matches Event::PageStateRead { url, title } ==> (
        if login_verified(url@, title@) {
            r == Some((Stage::Extracting, Action::CollectAnchors))
        } else {
            ((r->0).0 matches Stage::Finished { outcome, books } && outcome is VerificationFailed
                && books@.len() == 0 && (r->0).1 is Stop)
        })),
        // Extraction ends the workflow with the books the anchors yield.
        stage is Extracting ==> (event matches Event::AnchorsRead { anchors } ==> ((r->0).0
            matches Stage::Finished { outcome, books } && outcome is Success && link_views(books@)
            == extract_spec(anchor_views(anchors@)) && (r->0).1 is Stop)),
{
    match (stage, event) {
        (Stage::NavigatingToLogin, Event::LoginNavigated { ok }) => {
            if ok {
                Some((Stage::PollingToken { attempt: 0 }, Action::ReadTokenField))
            } else {
                Some(
                    (Stage::Finished { outcome: Outcome::LoginPageUnreachable, books: Vec::new() },
                    Action::Stop),
                )
            }
        },
        (Stage::PollingToken { attempt }, Event::TokenValue { value }) => {
            if !value.as_str().is_empty() || attempt + 1 >= TOKEN_POLL_ATTEMPTS {
                Some((Stage::InspectingForm, Action::InspectForm))
            } else {
                Some((Stage::PollingToken { attempt: attempt + 1 }, Action::WaitThenReadTokenField))
            }
        },
        (Stage::InspectingForm, Event::FormInspected { fields: _ }) => {
            Some((Stage::CheckingCredentials, Action::LoadCredentials))
        },
        (Stage::CheckingCredentials, Event::CredentialsLoaded { email, password }) => {
            if credentials_present(email.as_str(), password.as_str()) {
                Some((Stage::SubmittingForm, Action::FillAndSubmit { email, password }))
            } else {
                Some(
                    (Stage::Finished { outcome: Outcome::MissingCredentials, books: Vec::new() },
                    Action::Stop),
                )
            }
        },
        (Stage::SubmittingForm, Event::Submitted { both_found: _ }) => {
            Some((Stage::PollingAuth { attempt: 0 }, Action::ReadUrl))
        },
        (Stage::PollingAuth { attempt }, Event::UrlRead { url }) => {
            let authish = str_contains(url.as_str(), "author_dashboard") || str_contains(
                url.as_str(),
                "/u/",
            );
            if authish || attempt + 1 >= AUTH_POLL_ATTEMPTS {
                Some((Stage::ReadingIndicators, Action::ReadIndicators))
            } else {
                Some((Stage::PollingAuth { attempt: attempt + 1 }, Action::WaitThenReadUrl))
            }
        },
        (Stage::ReadingIndicators, Event::IndicatorsRead { title: _, indicator: _ }) => {
            Some((Stage::VerifyNavigating, Action::NavigateToPublished))
        },
        (Stage::VerifyNavigating, Event::PublishedNavigated { ok }) => {
            if ok {
                Some((Stage::CheckingOutcome, Action::SettleThenReadPageState))
            } else {
                Some(
                    (Stage::Finished { outcome: Outcome::VerificationFailed, books: Vec::new() },
                    Action::Stop),
                )
            }
        },
        (Stage::CheckingOutcome, Event::PageStateRead { url, title }) => {
            if verify_login(url.as_str(), title.as_str()) {
                Some((Stage::Extracting, Action::CollectAnchors))
            } else {
                Some(
                    (Stage::Finished { outcome: Outcome::VerificationFailed, books: Vec::new() },
                    Action::Stop),
                )
            }
        },
        (Stage::Extracting, Event::AnchorsRead { anchors }) => {
            let books = fetch_published_books(&anchors);
            Some((Stage::Finished { outcome: Outcome::Success, books }, Action::Stop))
        },
        (_, _) => None,
    }
}

} // verus!

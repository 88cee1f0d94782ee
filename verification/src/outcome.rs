//! The outcome verifier: after submission the workflow navigates to the
//! published-books page and declares the login verified only when the final
//! URL and the trimmed document title both equal their expected literals.

use vstd::prelude::*;

use crate::text::{str_eq, trim, trimmed};

verus! {

/// The URL of the authenticated published-books page.
pub open spec fn published_url() -> Seq<char> {
    "https://leanpub.com/author_dashboard/books/published"@
}

/// The title the published-books page carries.
pub open spec fn expected_title() -> Seq<char> {
    "Leanpub - Your Books"@
}

/// The login counts as verified exactly when the final URL matches the
/// published-books URL and the title, once trimmed, matches the expected
/// title — a mismatch in either field is a failed verification.
pub open spec fn login_verified(final_url: Seq<char>, title: Seq<char>) -> bool {
    final_url == published_url() && trimmed(title) == expected_title()
}

/// Decide, from the URL and title the page reports after navigation, whether
/// the login is verified.
pub fn verify_login(final_url: &str, title: &str) -> (r: bool)
    ensures
        r == login_verified(final_url@, title@),
{
    let url_ok = str_eq(final_url, "https://leanpub.com/author_dashboard/books/published");
    let t = trim(title);
    let title_ok = str_eq(t.as_str(), "Leanpub - Your Books");
    url_ok && title_ok
}

} // verus!

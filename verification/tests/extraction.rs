use leanpub_login::extract::{Anchor, BookLink, fetch_published_books};
use leanpub_login::href::resolve_href_path;
use leanpub_login::text::{str_contains, str_ends_with, str_eq, trim};

fn anchor(href: &str, text: &str) -> Anchor {
    Anchor { href: href.to_string(), text: text.to_string() }
}

fn extract(anchors: Vec<Anchor>) -> Vec<BookLink> {
    fetch_published_books(&anchors)
}

#[test]
fn literal_scenario_extracts_exactly_one_entry() {
    let anchors = vec![
        anchor("/my-book/overview", "My Book"),
        anchor("/my-book/overview", "Duplicate"),
        anchor("/other/sub/overview", "Nested"),
        anchor("/empty/overview", ""),
    ];
    let books = extract(anchors);
    assert_eq!(books.len(), 1);
    assert_eq!(books[0].slug, "my-book");
    assert_eq!(books[0].title, "My Book");
}

#[test]
fn duplicate_identifier_keeps_first_title() {
    let books = extract(vec![
        anchor("/alpha/overview", "First"),
        anchor("/alpha/overview", "Second"),
        anchor("/alpha/overview", "Third"),
    ]);
    assert_eq!(books.len(), 1);
    assert_eq!(books[0].title, "First");
}

#[test]
fn multi_segment_and_empty_identifiers_are_rejected() {
    let books = extract(vec![
        anchor("/a/b/overview", "Nested"),
        anchor("/overview", "Bare suffix keeps the segment"),
        anchor("//host/overview", "Host only"),
    ]);
    // "/overview" strips to the single segment "overview"; the others are
    // multi-segment or rootless and must be dropped.
    assert_eq!(books.len(), 1);
    assert_eq!(books[0].slug, "overview");
}

#[test]
fn non_matching_suffix_is_rejected() {
    let books = extract(vec![
        anchor("/my-book/preview", "Wrong suffix"),
        anchor("/my-book/overviews", "Almost"),
        anchor("/my-book", "No suffix"),
    ]);
    assert!(books.is_empty());
}

#[test]
fn empty_title_is_rejected_and_titles_are_trimmed() {
    let books = extract(vec![
        anchor("/a/overview", "   "),
        anchor("/b/overview", "  Spaced Out \t"),
    ]);
    assert_eq!(books.len(), 1);
    assert_eq!(books[0].slug, "b");
    assert_eq!(books[0].title, "Spaced Out");
}

#[test]
fn absolute_and_relative_hrefs_resolve_against_origin() {
    let books = extract(vec![
        anchor("https://leanpub.com/abs-book/overview", "Absolute"),
        anchor("rel-book/overview", "Relative"),
        anchor("/query-book/overview?ref=1", "Query"),
        anchor("/frag-book/overview#top", "Fragment"),
    ]);
    assert_eq!(books.len(), 4);
    assert_eq!(books[0].slug, "abs-book");
    assert_eq!(books[1].slug, "rel-book");
    assert_eq!(books[2].slug, "query-book");
    assert_eq!(books[3].slug, "frag-book");
}

#[test]
fn malformed_hrefs_are_silently_skipped() {
    let books = extract(vec![
        anchor("mailto:someone@example.com", "Mail"),
        anchor("javascript:void(0)", "Script"),
        anchor("https:///overview", "Empty host"),
        anchor("/good/overview", "Good"),
    ]);
    assert_eq!(books.len(), 1);
    assert_eq!(books[0].slug, "good");
}

#[test]
fn resolve_href_path_cases() {
    assert_eq!(resolve_href_path("https://leanpub.com/a/overview").as_deref(), Some("/a/overview"));
    assert_eq!(resolve_href_path("http://leanpub.com").as_deref(), Some("/"));
    assert_eq!(resolve_href_path("//cdn.leanpub.com/x").as_deref(), Some("/x"));
    assert_eq!(resolve_href_path("/plain/path").as_deref(), Some("/plain/path"));
    assert_eq!(resolve_href_path("relative").as_deref(), Some("/relative"));
    assert_eq!(resolve_href_path("").as_deref(), Some("/"));
    assert_eq!(resolve_href_path("/p?q=1#frag").as_deref(), Some("/p"));
    assert_eq!(resolve_href_path("mailto:x@y").as_deref(), None);
    assert_eq!(resolve_href_path("https://").as_deref(), None);
}

#[test]
fn text_utilities() {
    assert_eq!(trim("  Leanpub - Your Books \t\n"), "Leanpub - Your Books");
    assert_eq!(trim(""), "");
    assert_eq!(trim(" \u{a0} "), "");
    assert_eq!(trim("inner  space kept"), "inner  space kept");
    assert!(str_eq("same", "same"));
    assert!(!str_eq("same", "Same"));
    assert!(str_ends_with("/my-book/overview", "/overview"));
    assert!(!str_ends_with("view", "/overview"));
    assert!(str_contains("https://leanpub.com/author_dashboard/x", "author_dashboard"));
    assert!(!str_contains("https://leanpub.com/login", "author_dashboard"));
    assert!(str_contains("", ""));
}

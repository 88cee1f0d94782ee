//! The published-book link extractor: out of the anchors of an authenticated
//! dashboard page, keep those whose resolved path names a book overview page,
//! derive a single-segment identifier and a trimmed, non-empty title from
//! each, and deduplicate by identifier, first occurrence winning.

use vstd::prelude::*;

use crate::href::href_path;
use crate::text::{ends_with, find_char_from, has_char, lemma_first_at_or_after_has_char,
    str_ends_with, str_eq, trim, trimmed};

verus! {

/// The path suffix that marks a book overview page.
pub open spec fn overview_suffix() -> Seq<char> {
    "/overview"@
}

/// A read-only snapshot of one anchor element: its `href` attribute and its
/// visible text.
pub struct Anchor {
    pub href: String,
    pub text: String,
}

impl View for Anchor {
    type V = (Seq<char>, Seq<char>);

    open spec fn view(&self) -> (Seq<char>, Seq<char>) {
        (self.href@, self.text@)
    }
}

/// One published book: a single-segment identifier taken from the link path,
/// and the non-empty, trimmed link text as its title.
pub struct BookLink {
    pub slug: String,
    pub title: String,
}

impl View for BookLink {
    type V = (Seq<char>, Seq<char>);

    open spec fn view(&self) -> (Seq<char>, Seq<char>) {
        (self.slug@, self.title@)
    }
}

/// The identifier a path yields: the path must end in the overview suffix;
/// the leading separator and the suffix (where one remains after the leading
/// separator went) are stripped; what is left must be one non-empty segment.
pub open spec fn slug_of_path(p: Seq<char>) -> Option<Seq<char>> {
    if !ends_with(p, overview_suffix()) {
        None
    } else {
        let q = if p.len() > 0 && p[0] == '/' {
            p.subrange(1, p.len() as int)
        } else {
            p
        };
        let r = if ends_with(q, overview_suffix()) {
            q.subrange(0, q.len() - overview_suffix().len())
        } else {
            q
        };
        if r.len() == 0 || has_char(r, '/') {
            None
        } else {
            Some(r)
        }
    }
}

/// The entry one anchor contributes, before deduplication: its href must
/// resolve, the path must yield an identifier, and the trimmed text must be
/// non-empty.
pub open spec fn book_candidate(href: Seq<char>, text: Seq<char>) -> Option<
    (Seq<char>, Seq<char>),
> {
    match href_path(href) {
        None => None,
        Some(p) => match slug_of_path(p) {
            None => None,
            Some(slug) => if trimmed(text).len() == 0 {
                None
            } else {
                Some((slug, trimmed(text)))
            },
        },
    }
}

/// Some already-kept entry carries this identifier.
pub open spec fn slug_taken(entries: Seq<(Seq<char>, Seq<char>)>, slug: Seq<char>) -> bool {
    exists|i: int| 0 <= i < entries.len() && (#[trigger] entries[i]).0 == slug
}

/// What extraction returns, as a function of the anchors in document order:
/// each anchor's candidate entry in turn, kept unless its identifier was
/// already taken.
pub open spec fn extract_spec(anchors: Seq<(Seq<char>, Seq<char>)>) -> Seq<
    (Seq<char>, Seq<char>),
>
    decreases anchors.len(),
{
    if anchors.len() == 0 {
        Seq::empty()
    } else {
        let prev = extract_spec(anchors.drop_last());
        match book_candidate(anchors.last().0, anchors.last().1) {
            None => prev,
            Some(e) => if slug_taken(prev, e.0) {
                prev
            } else {
                prev.push(e)
            },
        }
    }
}

/// Law: extraction never keeps two entries with the same identifier — one
/// entry per unique identifier.
pub proof fn lemma_extract_slugs_unique(anchors: Seq<(Seq<char>, Seq<char>)>)
    ensures
        forall|i: int, j: int|
            0 <= i < j < extract_spec(anchors).len() ==> (#[trigger] extract_spec(anchors)[i]).0
                != (#[trigger] extract_spec(anchors)[j]).0,
    decreases anchors.len(),
{
    if anchors.len() > 0 {
        lemma_extract_slugs_unique(anchors.drop_last());
        let prev = extract_spec(anchors.drop_last());
        let res = extract_spec(anchors);
        assert forall|i: int, j: int| 0 <= i < j < res.len() implies (#[trigger] res[i]).0 != (
        #[trigger] res[j]).0 by {
            if j < prev.len() {
                assert(res[i] == prev[i] && res[j] == prev[j]);
            } else {
                let e = book_candidate(anchors.last().0, anchors.last().1)->0;
                assert(res == prev.push(e) && !slug_taken(prev, e.0));
                assert(res[i] == prev[i] && res[j] == e);
                assert(prev[i].0 != e.0);
            }
        }
    }
}

/// Law: every entry extraction returns is the candidate of some anchor — an
/// anchor whose path has the watched suffix, a single-segment identifier and
/// a non-empty title; no other anchor contributes an entry.
pub proof fn lemma_extract_sound(anchors: Seq<(Seq<char>, Seq<char>)>)
    ensures
        forall|k: int|
            0 <= k < extract_spec(anchors).len() ==> exists|j: int|
                0 <= j < anchors.len() && book_candidate(anchors[j].0, anchors[j].1) == Some(
                    #[trigger] extract_spec(anchors)[k],
                ),
    decreases anchors.len(),
{
    if anchors.len() > 0 {
        lemma_extract_sound(anchors.drop_last());
        let prev = extract_spec(anchors.drop_last());
        let res = extract_spec(anchors);
        assert forall|k: int| 0 <= k < res.len() implies exists|j: int|
            0 <= j < anchors.len() && book_candidate(anchors[j].0, anchors[j].1) == Some(
                #[trigger] res[k],
            ) by {
            if k < prev.len() {
                let j = choose|j: int|
                    0 <= j < anchors.drop_last().len() && book_candidate(
                        anchors.drop_last()[j].0,
                        anchors.drop_last()[j].1,
                    ) == Some(prev[k]);
                assert(anchors.drop_last()[j] == anchors[j]);
                assert(book_candidate(anchors[j].0, anchors[j].1) == Some(res[k]));
            } else {
                let j = anchors.len() - 1;
                assert(book_candidate(anchors[j].0, anchors[j].1) == Some(res[k]));
            }
        }
    }
}

/// Law: every extracted entry satisfies the data-model invariant — a
/// non-empty identifier that contains no path separator, and a non-empty
/// title.
pub proof fn lemma_extract_entries_wf(anchors: Seq<(Seq<char>, Seq<char>)>)
    ensures
        forall|k: int|
            0 <= k < extract_spec(anchors).len() ==> ((#[trigger] extract_spec(anchors)[k]).0.len()
                > 0 && !has_char(extract_spec(anchors)[k].0, '/') && extract_spec(
                anchors,
            )[k].1.len() > 0),
{
    lemma_extract_sound(anchors);
    let res = extract_spec(anchors);
    assert forall|k: int| 0 <= k < res.len() implies ((#[trigger] res[k]).0.len() > 0 && !has_char(
        res[k].0,
        '/',
    ) && res[k].1.len() > 0) by {
        let j = choose|j: int|
            0 <= j < anchors.len() && book_candidate(anchors[j].0, anchors[j].1) == Some(res[k]);
        assert(book_candidate(anchors[j].0, anchors[j].1) is Some);
    }
}

/// Law: every anchor whose candidate yields an identifier is represented —
/// the identifier occurs among the extracted entries.
pub proof fn lemma_extract_complete(anchors: Seq<(Seq<char>, Seq<char>)>)
    ensures
        forall|j: int|
            0 <= j < anchors.len() && (#[trigger] book_candidate(anchors[j].0, anchors[j].1))
                is Some ==> slug_taken(
                extract_spec(anchors),
                (book_candidate(anchors[j].0, anchors[j].1)->0).0,
            ),
    decreases anchors.len(),
{
    if anchors.len() > 0 {
        lemma_extract_complete(anchors.drop_last());
        let prev = extract_spec(anchors.drop_last());
        let res = extract_spec(anchors);
        assert forall|j: int|
            0 <= j < anchors.len() && (book_candidate(anchors[j].0, anchors[j].1))
                is Some implies slug_taken(
            res,
            (book_candidate(anchors[j].0, anchors[j].1)->0).0,
        ) by {
            let s = (book_candidate(anchors[j].0, anchors[j].1)->0).0;
            if j < anchors.len() - 1 {
                assert(anchors.drop_last()[j] == anchors[j]);
                assert(slug_taken(prev, s));
                let i = choose|i: int| 0 <= i < prev.len() && (#[trigger] prev[i]).0 == s;
                assert(res[i].0 == s);
            } else {
                let e = book_candidate(anchors.last().0, anchors.last().1)->0;
                if slug_taken(prev, e.0) {
                    let i = choose|i: int| 0 <= i < prev.len() && (#[trigger] prev[i]).0 == e.0;
                    assert(res[i].0 == e.0);
                } else {
                    assert(res[prev.len() as int].0 == e.0);
                }
            }
        }
    }
}

/// Law: on duplicate identifiers the first encounter wins — an anchor whose
/// candidate's identifier no earlier anchor also yields contributes its
/// entry, title included, to the result.
pub proof fn lemma_extract_first_wins(anchors: Seq<(Seq<char>, Seq<char>)>, j: int)
    requires
        0 <= j < anchors.len(),
        book_candidate(anchors[j].0, anchors[j].1) is Some,
        forall|i: int|
            0 <= i < j ==> !((#[trigger] book_candidate(anchors[i].0, anchors[i].1)) is Some
                && (book_candidate(anchors[i].0, anchors[i].1)->0).0 == (book_candidate(
                anchors[j].0,
                anchors[j].1,
            )->0).0),
    ensures
        extract_spec(anchors).contains(book_candidate(anchors[j].0, anchors[j].1)->0),
    decreases anchors.len(),
{
    let e = book_candidate(anchors[j].0, anchors[j].1)->0;
    let prev = extract_spec(anchors.drop_last());
    let res = extract_spec(anchors);
    if j == anchors.len() - 1 {
        lemma_extract_sound(anchors.drop_last());
        if slug_taken(prev, e.0) {
            let i = choose|i: int| 0 <= i < prev.len() && (#[trigger] prev[i]).0 == e.0;
            let w = choose|w: int|
                0 <= w < anchors.drop_last().len() && book_candidate(
                    anchors.drop_last()[w].0,
                    anchors.drop_last()[w].1,
                ) == Some(prev[i]);
            assert(anchors.drop_last()[w] == anchors[w]);
            assert(false);
        }
        assert(res[prev.len() as int] == e);
        assert(res.contains(e));
    } else {
        assert(anchors.drop_last()[j] == anchors[j]);
        assert forall|i: int| 0 <= i < j implies !((#[trigger] book_candidate(
            anchors.drop_last()[i].0,
            anchors.drop_last()[i].1,
        )) is Some && (book_candidate(anchors.drop_last()[i].0, anchors.drop_last()[i].1)->0).0
            == (book_candidate(anchors.drop_last()[j].0, anchors.drop_last()[j].1)->0).0) by {
            assert(anchors.drop_last()[i] == anchors[i]);
        }
        lemma_extract_first_wins(anchors.drop_last(), j);
        let k = choose|k: int| 0 <= k < prev.len() && #[trigger] prev[k] == e;
        assert(res[k] == e);
        assert(res.contains(e));
    }
}

pub open spec fn anchor_views(s: Seq<Anchor>) -> Seq<(Seq<char>, Seq<char>)> {
    s.map_values(|a: Anchor| a@)
}

pub open spec fn link_views(s: Seq<BookLink>) -> Seq<(Seq<char>, Seq<char>)> {
    s.map_values(|b: BookLink| b@)
}

/// Executable counterpart of `slug_of_path`.
fn slug_of_path_exec(p: &str) -> (r: Option<String>)
    ensures
        r is Some <==> slug_of_path(p@) is Some,
        r is Some ==> (r->0)@ == slug_of_path(p@)->0,
{
    proof {
        reveal_strlit("/overview");
    }
    if !str_ends_with(p, "/overview") {
        return None;
    }
    let n = p.unicode_len();
    let start: usize = if n > 0 && p.get_char(0) == '/' {
        1
    } else {
        0
    };
    let q = p.substring_char(start, n);
    let ghost spec_q = if p@.len() > 0 && p@[0] == '/' {
        p@.subrange(1, p@.len() as int)
    } else {
        p@
    };
    proof {
        if !(p@.len() > 0 && p@[0] == '/') {
            assert(p@.subrange(0, p@.len() as int) =~= p@);
        }
        assert(q@ == spec_q);
    }
    let qn = q.unicode_len();
    let sufl = "/overview".unicode_len();
    let r: &str = if str_ends_with(q, "/overview") {
        q.substring_char(0, qn - sufl)
    } else {
        q
    };
    let ghost spec_r = if ends_with(spec_q, overview_suffix()) {
        spec_q.subrange(0, spec_q.len() - overview_suffix().len())
    } else {
        spec_q
    };
    proof {
        assert(r@ == spec_r);
        lemma_first_at_or_after_has_char(r@, '/');
    }
    if r.unicode_len() == 0 {
        return None;
    }
    if find_char_from(r, '/', 0) < r.unicode_len() {
        return None;
    }
    Some(r.to_owned())
}

/// Executable counterpart of `book_candidate`.
fn book_candidate_exec(a: &Anchor) -> (r: Option<BookLink>)
    ensures
        r is Some <==> book_candidate(a.href@, a.text@) is Some,
        r is Some ==> (r->0)@ == book_candidate(a.href@, a.text@)->0,
{
    let p = match crate::href::resolve_href_path(a.href.as_str()) {
        None => {
            return None;
        },
        Some(p) => p,
    };
    let slug = match slug_of_path_exec(p.as_str()) {
        None => {
            return None;
        },
        Some(s) => s,
    };
    let title = trim(a.text.as_str());
    if title.unicode_len() == 0 {
        return None;
    }
    Some(BookLink { slug, title })
}

/// Executable membership test for `slug_taken`.
fn slug_taken_exec(entries: &Vec<BookLink>, slug: &str) -> (r: bool)
    ensures
        r == slug_taken(link_views(entries@), slug@),
{
    let n = entries.len();
    let mut i: usize = 0;
    while i < n
        invariant
            i <= n,
            n == entries@.len(),
            forall|j: int| 0 <= j < i ==> (#[trigger] link_views(entries@)[j]).0 != slug@,
        decreases n - i,
    {
        if str_eq(entries[i].slug.as_str(), slug) {
            proof {
                assert(link_views(entries@)[i as int].0 == slug@);
            }
            return true;
        }
        proof {
            assert(link_views(entries@)[i as int] == entries@[i as int]@);
        }
        i += 1;
    }
    false
}

/// Collect the published-book entries among the given anchor snapshots, in
/// document order, one entry per identifier, the first occurrence winning.
pub fn fetch_published_books(anchors: &Vec<Anchor>) -> (r: Vec<BookLink>)
    ensures
        link_views(r@) == extract_spec(anchor_views(anchors@)),
{
    let n = anchors.len();
    let mut out: Vec<BookLink> = Vec::new();
    proof {
        assert(anchor_views(anchors@).take(0) =~= Seq::<(Seq<char>, Seq<char>)>::empty());
        assert(link_views(out@) =~= Seq::<(Seq<char>, Seq<char>)>::empty());
    }
    let mut i: usize = 0;
    while i < n
        invariant
            i <= n,
            n == anchors@.len(),
            link_views(out@) == extract_spec(anchor_views(anchors@).take(i as int)),
        decreases n - i,
    {
        let ghost pre = anchor_views(anchors@).take(i as int);
        let ghost cur = anchor_views(anchors@).take(i as int + 1);
        proof {
            assert(cur.drop_last() =~= pre);
            assert(cur.last() == anchors@[i as int]@);
        }
        match book_candidate_exec(&anchors[i]) {
            None => {},
            Some(b) => {
                if !slug_taken_exec(&out, b.slug.as_str()) {
                    let ghost old_out = out@;
                    out.push(b);
                    proof {
                        assert(link_views(out@) =~= link_views(old_out).push(b@));
                    }
                }
            },
        }
        i += 1;
    }
    proof {
        assert(anchor_views(anchors@).take(n as int) =~= anchor_views(anchors@));
    }
    out
}

} // verus!

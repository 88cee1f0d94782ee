//! Resolution of an anchor's `href` attribute against the page origin, down
//! to the path component of the resulting URL — the only part of the URL the
//! link extractor looks at.
//!
//! The model covers the href shapes a dashboard page serves: absolute
//! `http`/`https` URLs, protocol-relative (`//host/...`) and origin-relative
//! (`/path`) references, and bare relative references, which resolve against
//! the origin root. A reference whose first segment carries another scheme
//! (`mailto:`, `javascript:`) is treated as unresolvable and skipped, as is an
//! absolute URL with an empty host. A query or fragment is not part of the
//! path and is cut off first.

use vstd::prelude::*;

use crate::text::{first_at_or_after, find_char_from, lemma_first_at_or_after, starts_with,
    str_starts_with};

verus! {

/// The index at which the path-bearing part of an href ends: the first `?` or
/// `#`, or the end of the string.
pub open spec fn path_part_end(s: Seq<char>) -> int {
    let q = first_at_or_after(s, '?', 0);
    let h = first_at_or_after(s, '#', 0);
    if q <= h {
        q
    } else {
        h
    }
}

/// The path of `host/rest`: `/rest` when a slash follows a non-empty host,
/// `/` when the host is the whole of it, nothing when the host is empty.
pub open spec fn host_path(r: Seq<char>) -> Option<Seq<char>> {
    let slash = first_at_or_after(r, '/', 0);
    if slash == 0 {
        None
    } else if slash >= r.len() {
        Some(seq!['/'])
    } else {
        Some(r.subrange(slash, r.len() as int))
    }
}

/// The path that an href resolves to against the page origin, or nothing for
/// an href this model treats as unresolvable.
pub open spec fn href_path(href: Seq<char>) -> Option<Seq<char>> {
    let t = href.take(path_part_end(href));
    if starts_with(t, "https://"@) {
        host_path(t.subrange(8, t.len() as int))
    } else if starts_with(t, "http://"@) {
        host_path(t.subrange(7, t.len() as int))
    } else if starts_with(t, "//"@) {
        host_path(t.subrange(2, t.len() as int))
    } else if t.len() > 0 && t[0] == '/' {
        Some(t)
    } else if first_at_or_after(t, ':', 0) < first_at_or_after(t, '/', 0) {
        None
    } else {
        Some(seq!['/'] + t)
    }
}

/// Executable counterpart of `host_path` on the remainder of `t` after the
/// scheme marker of `skip` characters.
fn host_path_exec(t: &str, skip: usize) -> (r: Option<String>)
    requires
        skip <= t@.len(),
    ensures
        r is Some <==> host_path(t@.subrange(skip as int, t@.len() as int)) is Some,
        r is Some ==> (r->0)@ == host_path(t@.subrange(skip as int, t@.len() as int))->0,
{
    let n = t.unicode_len();
    let rest = t.substring_char(skip, n);
    let rn = rest.unicode_len();
    let slash = find_char_from(rest, '/', 0);
    proof {
        lemma_first_at_or_after(rest@, '/', 0);
        reveal_strlit("/");
    }
    if slash == 0 {
        None
    } else if slash >= rn {
        proof {
            assert("/"@ =~= seq!['/']);
        }
        Some(String::from_str("/"))
    } else {
        Some(rest.substring_char(slash, rn).to_owned())
    }
}

/// Executable href resolution: returns the path of the resolved URL, or
/// nothing for an unresolvable href.
pub fn resolve_href_path(href: &str) -> (r: Option<String>)
    ensures
        r is Some <==> href_path(href@) is Some,
        r is Some ==> (r->0)@ == href_path(href@)->0,
{
    let n = href.unicode_len();
    let q = find_char_from(href, '?', 0);
    let h = find_char_from(href, '#', 0);
    let stop = if q <= h {
        q
    } else {
        h
    };
    proof {
        lemma_first_at_or_after(href@, '?', 0);
        lemma_first_at_or_after(href@, '#', 0);
    }
    let t = href.substring_char(0, stop);
    let tn = t.unicode_len();
    if str_starts_with(t, "https://") {
        proof {
            reveal_strlit("https://");
        }
        host_path_exec(t, 8)
    } else if str_starts_with(t, "http://") {
        proof {
            reveal_strlit("http://");
        }
        host_path_exec(t, 7)
    } else if str_starts_with(t, "//") {
        proof {
            reveal_strlit("//");
        }
        host_path_exec(t, 2)
    } else if tn > 0 && t.get_char(0) == '/' {
        Some(t.to_owned())
    } else {
        let ci = find_char_from(t, ':', 0);
        let si = find_char_from(t, '/', 0);
        if ci < si {
            None
        } else {
            proof {
                reveal_strlit("/");
                assert("/"@ =~= seq!['/']);
            }
            Some(String::from_str("/").concat(t))
        }
    }
}

} // verus!

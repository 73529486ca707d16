//! The chapter resolver: collect the chapter rows of a fiction index page
//! in document order and extract each row's chapter identifier from its
//! `data-url` attribute with the fixed pattern `/chapter/<id>/<rest>` —
//! the leftmost possible match, with the identifier capture as long as
//! possible.

use vstd::prelude::*;

use crate::dom::{Dom, HtmlNode, NodeData, spec_attr_value};
use crate::extract::ExtractError;
use crate::query::{Selector, SpecSelector, find_all, spec_all_matches};
use crate::text::subrange_eq;

verus! {

/// The literal `/chapter/` that introduces an identifier in a chapter URL.
pub open spec fn marker() -> Seq<char> {
    seq!['/', 'c', 'h', 'a', 'p', 't', 'e', 'r', '/']
}

/// The marker occurs in `s` at position `i`.
pub open spec fn marker_at(s: Seq<char>, i: int) -> bool {
    0 <= i && i + 9 <= s.len() && s.subrange(i, i + 9) == marker()
}

/// Position `j` can close an identifier that starts after a marker at
/// `i`: a slash strictly after a non-empty capture, with at least one
/// character following it.
pub open spec fn tail_slash_ok(s: Seq<char>, i: int, j: int) -> bool {
    i + 10 <= j <= s.len() - 2 && s[j] == '/'
}

/// The whole pattern matches starting at position `i`.
pub open spec fn match_at(s: Seq<char>, i: int) -> bool {
    marker_at(s, i) && exists|j: int| tail_slash_ok(s, i, j)
}

/// `i` is the leftmost position where the pattern matches.
pub open spec fn is_first_match(s: Seq<char>, i: int) -> bool {
    match_at(s, i) && forall|x: int| 0 <= x < i ==> !match_at(s, x)
}

/// `j` is the rightmost closing slash for a match at `i`: the greedy
/// capture runs up to it.
pub open spec fn is_last_slash(s: Seq<char>, i: int, j: int) -> bool {
    tail_slash_ok(s, i, j) && forall|y: int| y > j ==> !tail_slash_ok(s, i, y)
}

/// The identifier the pattern captures from `s`, if it matches: the text
/// between the leftmost marker that can be completed to a match and the
/// rightmost closing slash after it.
pub open spec fn spec_capture(s: Seq<char>) -> Option<Seq<char>> {
    if exists|i: int, j: int| is_first_match(s, i) && is_last_slash(s, i, j) {
        let (i, j) = choose|i: int, j: int| is_first_match(s, i) && is_last_slash(s, i, j);
        Some(s.subrange(i + 9, j))
    } else {
        None
    }
}

/// Find the leftmost marker occurrence in `s`.
fn find_marker(s: &str) -> (r: Option<usize>)
    ensures
        match r {
            Some(i) => marker_at(s@, i as int) && forall|x: int| 0 <= x < i ==> !marker_at(s@, x),
            None => forall|x: int| !marker_at(s@, x),
        },
{
    let n = s.unicode_len();
    if n < 9 {
        return None;
    }
    let mut i: usize = 0;
    while i <= n - 9
        invariant
            n == s@.len(),
            9 <= n,
            i <= n - 9 + 1,
            forall|x: int| 0 <= x < i ==> !marker_at(s@, x),
        decreases n + 1 - 9 - i,
    {
        proof {
            reveal_strlit("/chapter/");
            assert(("/chapter/")@ =~= marker());
        }
        if subrange_eq(s, i, "/chapter/") {
            return Some(i);
        }
        assert(!marker_at(s@, i as int));
        i = i + 1;
    }
    proof {
        assert forall|x: int| !marker_at(s@, x) by {
            if 0 <= x <= n - 9 {
                assert(!marker_at(s@, x));
            }
        }
    }
    None
}

/// Find the rightmost slash in `s` at a position in `[lo, s.len() - 2]`.
fn find_last_slash(s: &str, lo: usize) -> (r: Option<usize>)
    requires
        2 <= s@.len(),
        lo <= s@.len() - 2,
    ensures
        match r {
            Some(j) => lo <= j <= s@.len() - 2 && s@[j as int] == '/' && forall|y: int|
                j < y <= s@.len() - 2 ==> s@[y] != '/',
            None => forall|y: int| lo <= y <= s@.len() - 2 ==> s@[y] != '/',
        },
{
    let n = s.unicode_len();
    let mut j: usize = n - 2;
    loop
        invariant
            n == s@.len(),
            2 <= n,
            lo <= j <= n - 2,
            forall|y: int| j < y <= n - 2 ==> s@[y] != '/',
        decreases j,
    {
        if s.get_char(j) == '/' {
            return Some(j);
        }
        if j == lo {
            return None;
        }
        j = j - 1;
    }
}

/// Apply the fixed pattern to a `data-url` value and return the captured
/// chapter identifier, or `None` when the pattern does not match.
pub fn capture_chapter_id(s: &str) -> (r: Option<String>)
    ensures
        match r {
            Some(id) => spec_capture(s@) == Some(id@),
            None => spec_capture(s@) is None,
        },
{
    let n = s.unicode_len();
    if n < 12 {
        proof {
            assert forall|i: int, j: int| !(is_first_match(s@, i) && is_last_slash(s@, i, j)) by {
                if is_first_match(s@, i) && is_last_slash(s@, i, j) {
                    assert(marker_at(s@, i));
                    assert(tail_slash_ok(s@, i, j));
                    assert(false);
                }
            }
        }
        return None;
    }
    let im = match find_marker(s) {
        Some(im) => im,
        None => {
            proof {
                assert forall|i: int, j: int|
                    !(is_first_match(s@, i) && is_last_slash(s@, i, j)) by {}
            }
            return None;
        },
    };
    if im > n - 12 {
        proof {
            assert forall|i: int, j: int| !(is_first_match(s@, i) && is_last_slash(s@, i, j)) by {
                if is_first_match(s@, i) && is_last_slash(s@, i, j) {
                    assert(marker_at(s@, i));
                    assert(i >= im);
                    assert(tail_slash_ok(s@, i, j));
                    assert(false);
                }
            }
        }
        return None;
    }
    let j0 = match find_last_slash(s, im + 10) {
        Some(j0) => j0,
        None => {
            proof {
                assert forall|i: int, j: int|
                    !(is_first_match(s@, i) && is_last_slash(s@, i, j)) by {
                    if is_first_match(s@, i) && is_last_slash(s@, i, j) {
                        assert(marker_at(s@, i));
                        assert(i >= im);
                        assert(tail_slash_ok(s@, i, j));
                        assert(im + 10 <= j <= s@.len() - 2);
                        assert(false);
                    }
                }
            }
            return None;
        },
    };
    let id = s.substring_char(im + 9, j0).to_owned();
    proof {
        assert(tail_slash_ok(s@, im as int, j0 as int));
        assert(match_at(s@, im as int));
        assert forall|x: int| 0 <= x < im implies !match_at(s@, x) by {}
        assert(is_first_match(s@, im as int));
        assert forall|y: int| y > j0 implies !tail_slash_ok(s@, im as int, y) by {}
        assert(is_last_slash(s@, im as int, j0 as int));
        let (ci, cj) = choose|ci: int, cj: int| is_first_match(s@, ci) && is_last_slash(s@, ci, cj);
        assert(ci == im as int);
        assert(cj == j0 as int);
    }
    Some(id)
}

/// The chapter-row recipe: a `tr` below a `tbody` below a `table`.
pub open spec fn chapter_row_sel() -> SpecSelector {
    SpecSelector::Within(
        Box::new(
            SpecSelector::Within(
                Box::new(SpecSelector::Tag("table"@)),
                Box::new(SpecSelector::Tag("tbody"@)),
            ),
        ),
        Box::new(SpecSelector::Tag("tr"@)),
    )
}

/// Build the chapter-row selector.
pub fn make_chapter_row_sel() -> (s: Selector)
    ensures
        s@ == chapter_row_sel(),
{
    let s = Selector::Within(
        Box::new(
            Selector::Within(
                Box::new(Selector::Tag("table".to_owned())),
                Box::new(Selector::Tag("tbody".to_owned())),
            ),
        ),
        Box::new(Selector::Tag("tr".to_owned())),
    );
    proof {
        reveal_with_fuel(crate::query::sel_view, 10);
        assert(s@ =~~= chapter_row_sel());
    }
    s
}

/// The chapter identifier a row yields: the pattern's capture from its
/// `data-url` attribute, or `None` when the attribute is missing or the
/// pattern does not match.
pub open spec fn spec_row_id(nodes: Seq<HtmlNode>, i: int) -> Option<Seq<char>> {
    match nodes[i].data {
        NodeData::Element { tag: _, attrs } => match spec_attr_value(attrs@, "data-url"@) {
            Some(u) => spec_capture(u),
            None => None,
        },
        NodeData::Text { .. } => None,
    }
}

/// Resolve the ordered chapter-identifier list of a fiction index page:
/// one identifier per chapter row, in document order, without
/// deduplication or reordering. Fails with `RegexMismatch` exactly when
/// some row's `data-url` is missing or does not match the pattern.
#[verifier::loop_isolation(false)]
pub fn resolve_chapter_ids(dom: &Dom) -> (r: Result<Vec<String>, ExtractError>)
    requires
        dom.wf(),
    ensures
        match r {
            Ok(ids) => {
                let rows = spec_all_matches(dom.nodes@, chapter_row_sel());
                ids@.len() == rows.len() && forall|k: int|
                    0 <= k < rows.len() ==> spec_row_id(dom.nodes@, rows[k] as int) == Some(
                        ids@[k]@,
                    )
            },
            Err(e) => {
                let rows = spec_all_matches(dom.nodes@, chapter_row_sel());
                e == ExtractError::RegexMismatch && exists|k: int|
                    0 <= k < rows.len() && spec_row_id(dom.nodes@, rows[k] as int) is None
            },
        },
{
    let sel = make_chapter_row_sel();
    let rows = find_all(dom, &sel);
    let mut ids: Vec<String> = Vec::new();
    let mut k: usize = 0;
    while k < rows.len()
        invariant
            ids@.len() == k,
            k <= rows@.len(),
            forall|x: int|
                0 <= x < k ==> spec_row_id(dom.nodes@, rows@[x] as int) == Some(ids@[x]@),
        decreases rows@.len() - k,
    {
        let row = rows[k];
        let url = match dom.attr_value(row, "data-url") {
            Some(url) => url,
            None => {
                return Err(ExtractError::RegexMismatch);
            },
        };
        let id = match capture_chapter_id(url.as_str()) {
            Some(id) => id,
            None => {
                return Err(ExtractError::RegexMismatch);
            },
        };
        ids.push(id);
        k = k + 1;
    }
    Ok(ids)
}

} // verus!

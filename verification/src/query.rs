//! A small selector algebra over the node store: match by tag name, by a
//! class word, by an attribute's exact value, by conjunction, or by "this
//! matches and some ancestor matches" — enough to express both extraction
//! recipes of the target site.

use vstd::prelude::*;

use crate::dom::{Dom, HtmlNode, NodeData, is_ancestor, nodes_wf, parent_ok, spec_attr_value};
use crate::text::{is_space_char, str_eq, subrange_eq};

verus! {

/// A structural predicate on a node of the store.
pub enum Selector {
    /// An element with this tag name.
    Tag(String),
    /// An element whose `class` attribute contains this word.
    Class(String),
    /// An element carrying this attribute with exactly this value.
    Attr(String, String),
    /// Both selectors match the node.
    Both(Box<Selector>, Box<Selector>),
    /// The second selector matches the node and the first matches some
    /// strict ancestor of it.
    Within(Box<Selector>, Box<Selector>),
}

/// The mathematical form of a selector: the same shape over character
/// sequences.
#[verifier::ext_equal]
pub enum SpecSelector {
    Tag(Seq<char>),
    Class(Seq<char>),
    Attr(Seq<char>, Seq<char>),
    Both(Box<SpecSelector>, Box<SpecSelector>),
    Within(Box<SpecSelector>, Box<SpecSelector>),
}

/// The view of a selector: its shape with every string replaced by its
/// character sequence.
pub open spec fn sel_view(s: Selector) -> SpecSelector
    decreases s,
{
    match s {
        Selector::Tag(t) => SpecSelector::Tag(t@),
        Selector::Class(c) => SpecSelector::Class(c@),
        Selector::Attr(n, v) => SpecSelector::Attr(n@, v@),
        Selector::Both(a, b) => SpecSelector::Both(
            Box::new(sel_view(*a)),
            Box::new(sel_view(*b)),
        ),
        Selector::Within(a, b) => SpecSelector::Within(
            Box::new(sel_view(*a)),
            Box::new(sel_view(*b)),
        ),
    }
}

impl View for Selector {
    type V = SpecSelector;

    open spec fn view(&self) -> SpecSelector {
        sel_view(*self)
    }
}

/// The word `w` occurs at position `k` of `s`, delimited by whitespace or
/// the ends of `s`.
pub open spec fn word_at(s: Seq<char>, w: Seq<char>, k: int) -> bool {
    &&& 0 <= k
    &&& k + w.len() <= s.len()
    &&& s.subrange(k, k + w.len()) == w
    &&& (k == 0 || is_space_char(s[k - 1]))
    &&& (k + w.len() == s.len() || is_space_char(s[k + w.len()]))
}

/// The class-attribute value `s` contains the class word `w`: `w` is not
/// empty and occurs in `s` delimited by whitespace or the ends of the
/// value.
pub open spec fn has_word(s: Seq<char>, w: Seq<char>) -> bool {
    w.len() > 0 && exists|k: int| word_at(s, w, k)
}

/// Whether node `i` matches the selector.
pub open spec fn spec_matches(nodes: Seq<HtmlNode>, i: int, sel: SpecSelector) -> bool
    decreases sel,
{
    match sel {
        SpecSelector::Tag(t) => match nodes[i].data {
            NodeData::Element { tag, attrs: _ } => tag@ == t,
            NodeData::Text { .. } => false,
        },
        SpecSelector::Class(c) => match nodes[i].data {
            NodeData::Element { tag: _, attrs } => match spec_attr_value(attrs@, "class"@) {
                Some(v) => has_word(v, c),
                None => false,
            },
            NodeData::Text { .. } => false,
        },
        SpecSelector::Attr(n, v) => match nodes[i].data {
            NodeData::Element { tag: _, attrs } => spec_attr_value(attrs@, n) == Some(v),
            NodeData::Text { .. } => false,
        },
        SpecSelector::Both(a, b) => spec_matches(nodes, i, *a) && spec_matches(nodes, i, *b),
        SpecSelector::Within(a, b) => spec_matches(nodes, i, *b) && exists|j: int|
            is_ancestor(nodes, j, i) && spec_matches(nodes, j, *a),
    }
}

/// A strict ancestor's index lies strictly below the node's.
pub proof fn lemma_ancestor_below(nodes: Seq<HtmlNode>, a: int, i: int)
    requires
        nodes_wf(nodes),
        0 <= i < nodes.len(),
        is_ancestor(nodes, a, i),
    ensures
        0 <= a < i,
    decreases i,
{
    match nodes[i].parent {
        Some(p) => {
            assert(parent_ok(nodes, i));
            if p != a {
                lemma_ancestor_below(nodes, a, p as int);
            }
        },
        None => {},
    }
}

/// Ancestors of one node form a chain: an ancestor of `i` lying below
/// another ancestor `c` of `i` is an ancestor of `c`.
pub proof fn lemma_ancestor_chain(nodes: Seq<HtmlNode>, j: int, c: int, i: int)
    requires
        nodes_wf(nodes),
        0 <= i < nodes.len(),
        is_ancestor(nodes, c, i),
        is_ancestor(nodes, j, i),
        j < c,
    ensures
        is_ancestor(nodes, j, c),
    decreases i,
{
    lemma_ancestor_below(nodes, c, i);
    lemma_ancestor_below(nodes, j, i);
    match nodes[i].parent {
        Some(p) => {
            assert(parent_ok(nodes, i));
            if p == c {
                // j is an ancestor of i other than its parent, so an
                // ancestor of the parent.
            } else if p == j {
                lemma_ancestor_below(nodes, c, p as int);
                // impossible: c is an ancestor of p, so c < p == j < c
            } else {
                lemma_ancestor_chain(nodes, j, c, p as int);
            }
        },
        None => {},
    }
}

/// Whether the whitespace-separated word `w` occurs in `s`.
pub fn contains_word(s: &str, w: &str) -> (r: bool)
    ensures
        r == has_word(s@, w@),
{
    let n = s.unicode_len();
    let wn = w.unicode_len();
    if wn == 0 || wn > n {
        proof {
            if wn > n {
                assert forall|k: int| !word_at(s@, w@, k) by {}
            }
        }
        return false;
    }
    let mut k: usize = 0;
    while k <= n - wn
        invariant
            n == s@.len(),
            wn == w@.len(),
            0 < wn <= n,
            k <= n - wn + 1,
            forall|x: int| 0 <= x < k ==> !word_at(s@, w@, x),
        decreases n + 1 - wn - k,
    {
        let start_ok = k == 0 || {
            let c = s.get_char(k - 1);
            c == ' ' || c == '\t' || c == '\n' || c == '\r' || c == '\u{000C}'
        };
        if start_ok {
            let end_ok = k + wn == n || {
                let c = s.get_char(k + wn);
                c == ' ' || c == '\t' || c == '\n' || c == '\r' || c == '\u{000C}'
            };
            if end_ok {
                if subrange_eq(s, k, w) {
                    assert(word_at(s@, w@, k as int));
                    return true;
                }
            }
        }
        assert(!word_at(s@, w@, k as int));
        k = k + 1;
    }
    proof {
        assert forall|x: int| !word_at(s@, w@, x) by {
            if 0 <= x <= n - wn {
                assert(!word_at(s@, w@, x));
            }
        }
    }
    false
}

/// Whether node `i` of the store matches the selector.
pub fn node_matches(dom: &Dom, i: usize, sel: &Selector) -> (r: bool)
    requires
        dom.wf(),
        i < dom.nodes@.len(),
    ensures
        r == spec_matches(dom.nodes@, i as int, sel@),
    decreases *sel,
{
    match sel {
        Selector::Tag(t) => match &dom.nodes[i].data {
            NodeData::Element { tag, attrs: _ } => str_eq(tag.as_str(), t.as_str()),
            NodeData::Text { .. } => false,
        },
        Selector::Class(c) => match dom.attr_value(i, "class") {
            Some(v) => contains_word(v.as_str(), c.as_str()),
            None => false,
        },
        Selector::Attr(n, v) => match dom.attr_value(i, n.as_str()) {
            Some(actual) => str_eq(actual.as_str(), v.as_str()),
            None => false,
        },
        Selector::Both(a, b) => node_matches(dom, i, &**a) && node_matches(dom, i, &**b),
        Selector::Within(a, b) => {
            if !node_matches(dom, i, &**b) {
                return false;
            }
            let mut cur: usize = i;
            proof {
                assert forall|j: int|
                    is_ancestor(dom.nodes@, j, i as int) implies j < i as int by {
                    lemma_ancestor_below(dom.nodes@, j, i as int);
                }
            }
            #[verifier::loop_isolation(false)]
            loop
                invariant
                    cur <= i,
                    cur == i || is_ancestor(dom.nodes@, cur as int, i as int),
                    forall|j: int|
                        is_ancestor(dom.nodes@, j, i as int) && j >= cur ==> !spec_matches(
                            dom.nodes@,
                            j,
                            (**a)@,
                        ),
                decreases cur,
            {
                match dom.nodes[cur].parent {
                    None => {
                        proof {
                            assert forall|j: int|
                                is_ancestor(dom.nodes@, j, i as int) implies !spec_matches(
                                dom.nodes@,
                                j,
                                (**a)@,
                            ) by {
                                lemma_ancestor_below(dom.nodes@, j, i as int);
                                if j < cur && cur < i {
                                    lemma_ancestor_chain(dom.nodes@, j, cur as int, i as int);
                                    lemma_ancestor_below(dom.nodes@, j, cur as int);
                                }
                            }
                        }
                        return false;
                    },
                    Some(p) => {
                        proof {
                            assert(parent_ok(dom.nodes@, cur as int));
                        }
                        if node_matches(dom, p, &**a) {
                            proof {
                                if cur == i {
                                    assert(is_ancestor(dom.nodes@, p as int, i as int));
                                } else {
                                    lemma_ancestor_parent(dom.nodes@, cur as int, p, i as int);
                                }
                            }
                            return true;
                        }
                        proof {
                            if cur == i {
                                assert(is_ancestor(dom.nodes@, p as int, i as int));
                            } else {
                                lemma_ancestor_parent(dom.nodes@, cur as int, p, i as int);
                            }
                            assert forall|j: int|
                                is_ancestor(dom.nodes@, j, i as int) && j >= p implies
                                !spec_matches(dom.nodes@, j, (**a)@) by {
                                if p < j < cur {
                                    if cur == i {
                                        // j would be an ancestor of i's own
                                        // parent p, hence below p
                                        assert(j == p as int || is_ancestor(
                                            dom.nodes@,
                                            j,
                                            p as int,
                                        ));
                                        lemma_ancestor_below(dom.nodes@, j, p as int);
                                    } else {
                                        lemma_parent_least(dom.nodes@, cur as int, p, j, i as int);
                                    }
                                }
                            }
                        }
                        cur = p;
                    },
                }
            }
        },
    }
}

/// The parent of an ancestor of `i` is an ancestor of `i`.
proof fn lemma_ancestor_parent(nodes: Seq<HtmlNode>, c: int, p: usize, i: int)
    requires
        nodes_wf(nodes),
        0 <= i < nodes.len(),
        is_ancestor(nodes, c, i),
        0 <= c < nodes.len(),
        nodes[c].parent == Some(p),
    ensures
        is_ancestor(nodes, p as int, i),
    decreases i,
{
    match nodes[i].parent {
        Some(q) => {
            assert(parent_ok(nodes, i));
            if q as int == c {
                assert(is_ancestor(nodes, p as int, c));
            } else {
                assert(is_ancestor(nodes, c, q as int));
                lemma_ancestor_parent(nodes, c, p, q as int);
            }
        },
        None => {
            assert(!is_ancestor(nodes, c, i));
        },
    }
}

/// No ancestor of `i` lies strictly between an ancestor `c` of `i` and
/// `c`'s own parent `p`.
proof fn lemma_parent_least(nodes: Seq<HtmlNode>, c: int, p: usize, j: int, i: int)
    requires
        nodes_wf(nodes),
        0 <= i < nodes.len(),
        is_ancestor(nodes, c, i),
        0 <= c < nodes.len(),
        nodes[c].parent == Some(p),
        p < j < c,
    ensures
        !is_ancestor(nodes, j, i),
{
    if is_ancestor(nodes, j, i) {
        lemma_ancestor_chain(nodes, j, c, i);
        // j is then an ancestor of c, so it is on c's parent chain; but the
        // first step of that chain is p < j, and every further step only
        // descends.
        assert(parent_ok(nodes, c));
        assert(j == p as int || is_ancestor(nodes, j, p as int));
        lemma_ancestor_below(nodes, j, p as int);
    }
}

/// The least node index at or after `from` that matches the selector.
pub open spec fn spec_first_match_from(
    nodes: Seq<HtmlNode>,
    sel: SpecSelector,
    from: int,
) -> Option<int>
    decreases nodes.len() - from,
{
    if from < 0 || from >= nodes.len() {
        None
    } else if spec_matches(nodes, from, sel) {
        Some(from)
    } else {
        spec_first_match_from(nodes, sel, from + 1)
    }
}

/// The first node of the document matching the selector, if any.
pub open spec fn spec_first_match(nodes: Seq<HtmlNode>, sel: SpecSelector) -> Option<int> {
    spec_first_match_from(nodes, sel, 0)
}

/// What the first match is: a matching node index with no matching node
/// before it, or nothing when no node matches.
pub proof fn lemma_first_match_characterize(nodes: Seq<HtmlNode>, sel: SpecSelector, from: int)
    requires
        0 <= from,
    ensures
        match spec_first_match_from(nodes, sel, from) {
            Some(i) => from <= i < nodes.len() && spec_matches(nodes, i, sel) && forall|j: int|
                from <= j < i ==> !spec_matches(nodes, j, sel),
            None => forall|j: int| from <= j < nodes.len() ==> !spec_matches(nodes, j, sel),
        },
    decreases nodes.len() - from,
{
    if from < nodes.len() && !spec_matches(nodes, from, sel) {
        lemma_first_match_characterize(nodes, sel, from + 1);
    }
}

/// All node indices at or after `from` that match the selector, in
/// document order.
pub open spec fn spec_all_matches_from(
    nodes: Seq<HtmlNode>,
    sel: SpecSelector,
    from: int,
) -> Seq<usize>
    decreases nodes.len() - from,
{
    if from < 0 || from >= nodes.len() {
        Seq::empty()
    } else {
        (if spec_matches(nodes, from, sel) {
            seq![from as usize]
        } else {
            Seq::empty()
        }) + spec_all_matches_from(nodes, sel, from + 1)
    }
}

/// All node indices matching the selector, in document order.
pub open spec fn spec_all_matches(nodes: Seq<HtmlNode>, sel: SpecSelector) -> Seq<usize> {
    spec_all_matches_from(nodes, sel, 0)
}

/// What the match list is: exactly the matching node indices, each listed
/// once, in strictly increasing (document) order, none missed.
pub proof fn lemma_all_matches_characterize(nodes: Seq<HtmlNode>, sel: SpecSelector, from: int)
    requires
        0 <= from,
        nodes.len() <= usize::MAX,
    ensures
        forall|k: int|
            0 <= k < spec_all_matches_from(nodes, sel, from).len() ==> from
                <= #[trigger] spec_all_matches_from(nodes, sel, from)[k] < nodes.len()
                && spec_matches(nodes, spec_all_matches_from(nodes, sel, from)[k] as int, sel),
        forall|k1: int, k2: int|
            0 <= k1 < k2 < spec_all_matches_from(nodes, sel, from).len()
                ==> #[trigger] spec_all_matches_from(nodes, sel, from)[k1]
                < #[trigger] spec_all_matches_from(nodes, sel, from)[k2],
        forall|i: int|
            from <= i < nodes.len() && #[trigger] spec_matches(nodes, i, sel)
                ==> spec_all_matches_from(nodes, sel, from).contains(i as usize),
    decreases nodes.len() - from,
{
    if from < 0 || from >= nodes.len() {
    } else {
        lemma_all_matches_characterize(nodes, sel, from + 1);
        let rest = spec_all_matches_from(nodes, sel, from + 1);
        let whole = spec_all_matches_from(nodes, sel, from);
        let hit = spec_matches(nodes, from, sel);
        if hit {
            assert(whole =~= seq![from as usize] + rest);
        } else {
            assert(whole =~= rest);
        }
        assert forall|k: int| 0 <= k < whole.len() implies from <= #[trigger] whole[k]
            < nodes.len() && spec_matches(nodes, whole[k] as int, sel) by {
            if hit {
                if k > 0 {
                    assert(whole[k] == rest[k - 1]);
                }
            } else {
                assert(whole[k] == rest[k]);
            }
        }
        assert forall|k1: int, k2: int| 0 <= k1 < k2 < whole.len() implies #[trigger] whole[k1]
            < #[trigger] whole[k2] by {
            if hit {
                if k1 > 0 {
                    assert(whole[k1] == rest[k1 - 1]);
                    assert(whole[k2] == rest[k2 - 1]);
                } else {
                    assert(whole[k2] == rest[k2 - 1]);
                    assert(from + 1 <= rest[k2 - 1]);
                }
            } else {
                assert(whole[k1] == rest[k1]);
                assert(whole[k2] == rest[k2]);
            }
        }
        assert forall|i: int|
            from <= i < nodes.len() && #[trigger] spec_matches(nodes, i, sel) implies
            whole.contains(i as usize) by {
            if i == from {
                assert(whole[0] == i as usize);
            } else {
                assert(rest.contains(i as usize));
                let k = choose|k: int| 0 <= k < rest.len() && rest[k] == i as usize;
                if hit {
                    assert(whole[k + 1] == i as usize);
                } else {
                    assert(whole[k] == i as usize);
                }
            }
        }
    }
}

/// Find the first node of the document matching the selector.
pub fn find_first(dom: &Dom, sel: &Selector) -> (r: Option<usize>)
    requires
        dom.wf(),
    ensures
        match r {
            Some(i) => i < dom.nodes@.len() && spec_first_match(dom.nodes@, sel@) == Some(
                i as int,
            ),
            None => spec_first_match(dom.nodes@, sel@) is None,
        },
{
    let mut k: usize = 0;
    while k < dom.nodes.len()
        invariant
            dom.wf(),
            k <= dom.nodes@.len(),
            spec_first_match(dom.nodes@, sel@) == spec_first_match_from(dom.nodes@, sel@, k as int),
        decreases dom.nodes@.len() - k,
    {
        if node_matches(dom, k, sel) {
            return Some(k);
        }
        k = k + 1;
    }
    None
}

/// Collect every node of the document matching the selector, in document
/// order.
pub fn find_all(dom: &Dom, sel: &Selector) -> (r: Vec<usize>)
    requires
        dom.wf(),
    ensures
        r@ == spec_all_matches(dom.nodes@, sel@),
        forall|k: int| 0 <= k < r@.len() ==> r@[k] < dom.nodes@.len(),
{
    let mut out: Vec<usize> = Vec::new();
    let mut k: usize = 0;
    proof {
        assert(out@ + spec_all_matches_from(dom.nodes@, sel@, 0) =~= spec_all_matches_from(
            dom.nodes@,
            sel@,
            0,
        ));
    }
    while k < dom.nodes.len()
        invariant
            dom.wf(),
            k <= dom.nodes@.len(),
            out@ + spec_all_matches_from(dom.nodes@, sel@, k as int) == spec_all_matches(
                dom.nodes@,
                sel@,
            ),
            forall|x: int| 0 <= x < out@.len() ==> out@[x] < dom.nodes@.len(),
        decreases dom.nodes@.len() - k,
    {
        if node_matches(dom, k, sel) {
            out.push(k);
            proof {
                assert(out@ + spec_all_matches_from(dom.nodes@, sel@, k + 1) =~= spec_all_matches(
                    dom.nodes@,
                    sel@,
                ));
            }
        }
        k = k + 1;
    }
    proof {
        assert(spec_all_matches_from(dom.nodes@, sel@, k as int) =~= Seq::<usize>::empty());
        assert(out@ + Seq::<usize>::empty() =~= out@);
    }
    out
}

} // verus!

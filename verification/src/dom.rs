//! The library's model of a parsed HTML page: a flat store of nodes, each
//! holding its kind (element or text) and the index of its parent.
//!
//! Nodes are appended in document order (a node always after its parent), so
//! node-index order is document order, and the children of an element are
//! the nodes that name it as parent, in index order. The unverified shell
//! converts whatever its HTML parser produced into this store through
//! [`Dom::add_element`] and [`Dom::add_text`]; all extraction logic then
//! works on the store alone.

use vstd::prelude::*;

use crate::text::all_blank;

verus! {

/// One attribute of an element: a name and a value.
pub struct HtmlAttr {
    pub name: String,
    pub value: String,
}

/// What a node is: an element with a tag name and attributes, or a run of
/// text.
pub enum NodeData {
    Element { tag: String, attrs: Vec<HtmlAttr> },
    Text { text: String },
}

/// One node of the page: its data and the index of its parent element, if
/// it has one.
pub struct HtmlNode {
    pub parent: Option<usize>,
    pub data: NodeData,
}

/// A parsed page: every node of the document in document order.
pub struct Dom {
    pub nodes: Vec<HtmlNode>,
}

/// A node's parent link is sound: it points backwards, at an element.
pub open spec fn parent_ok(nodes: Seq<HtmlNode>, i: int) -> bool {
    match nodes[i].parent {
        Some(p) => p < i && (nodes[p as int].data is Element),
        None => true,
    }
}

/// Every node of the store has a sound parent link.
pub open spec fn nodes_wf(nodes: Seq<HtmlNode>) -> bool {
    forall|i: int| 0 <= i < nodes.len() ==> parent_ok(nodes, i)
}

/// Whether node `a` is a strict ancestor of node `i`: on the parent chain
/// above it.
pub open spec fn is_ancestor(nodes: Seq<HtmlNode>, a: int, i: int) -> bool
    decreases i,
        when nodes_wf(nodes) && 0 <= i < nodes.len()
        via is_ancestor_decreases
{
    match nodes[i].parent {
        Some(p) => p == a || is_ancestor(nodes, a, p as int),
        None => false,
    }
}

#[via_fn]
proof fn is_ancestor_decreases(nodes: Seq<HtmlNode>, a: int, i: int) {
    assert(parent_ok(nodes, i));
}

/// The value of the first attribute named `name` on the attribute list,
/// scanning from position `from`.
pub open spec fn spec_attr_value_from(attrs: Seq<HtmlAttr>, name: Seq<char>, from: int) -> Option<
    Seq<char>,
>
    decreases attrs.len() - from,
{
    if from < 0 || from >= attrs.len() {
        None
    } else if attrs[from].name@ == name {
        Some(attrs[from].value@)
    } else {
        spec_attr_value_from(attrs, name, from + 1)
    }
}

/// The value of the first attribute named `name`, if any.
pub open spec fn spec_attr_value(attrs: Seq<HtmlAttr>, name: Seq<char>) -> Option<Seq<char>> {
    spec_attr_value_from(attrs, name, 0)
}

/// The rendered text of the subtree rooted at node `i`: the text of every
/// descendant text node, concatenated in document order.
pub open spec fn spec_text_of(nodes: Seq<HtmlNode>, i: int) -> Seq<char>
    decreases nodes.len() - i, 0int,
        when 0 <= i < nodes.len()
{
    match nodes[i].data {
        NodeData::Text { text } => text@,
        NodeData::Element { .. } => spec_text_children(nodes, i, i + 1),
    }
}

/// The concatenated rendered text of the children of node `i` whose index
/// is at least `from`.
pub open spec fn spec_text_children(nodes: Seq<HtmlNode>, i: int, from: int) -> Seq<char>
    decreases nodes.len() - from, 1int,
{
    if from < 0 || from >= nodes.len() {
        Seq::empty()
    } else {
        (if nodes[from].parent == Some(i as usize) && i < from {
            spec_text_of(nodes, from)
        } else {
            Seq::empty()
        }) + spec_text_children(nodes, i, from + 1)
    }
}

/// The markup of an attribute list from position `from` on: for each
/// attribute, a space, the name, `="`, the value, `"`.
pub open spec fn spec_attrs_markup(attrs: Seq<HtmlAttr>, from: int) -> Seq<char>
    decreases attrs.len() - from,
{
    if from < 0 || from >= attrs.len() {
        Seq::empty()
    } else {
        seq![' '] + attrs[from].name@ + seq!['=', '"'] + attrs[from].value@ + seq!['"']
            + spec_attrs_markup(attrs, from + 1)
    }
}

/// The markup of the subtree rooted at node `i`: a text node is its text;
/// an element is its open tag, its children's markup in document order, and
/// its close tag.
pub open spec fn spec_markup_of(nodes: Seq<HtmlNode>, i: int) -> Seq<char>
    decreases nodes.len() - i, 0int,
        when 0 <= i < nodes.len()
{
    match nodes[i].data {
        NodeData::Text { text } => text@,
        NodeData::Element { tag, attrs } => seq!['<'] + tag@ + spec_attrs_markup(attrs@, 0)
            + seq!['>'] + spec_markup_children(nodes, i, i + 1) + seq!['<', '/'] + tag@
            + seq!['>'],
    }
}

/// The concatenated markup of the children of node `i` whose index is at
/// least `from`.
pub open spec fn spec_markup_children(nodes: Seq<HtmlNode>, i: int, from: int) -> Seq<char>
    decreases nodes.len() - from, 1int,
{
    if from < 0 || from >= nodes.len() {
        Seq::empty()
    } else {
        (if nodes[from].parent == Some(i as usize) && i < from {
            spec_markup_of(nodes, from)
        } else {
            Seq::empty()
        }) + spec_markup_children(nodes, i, from + 1)
    }
}

/// The inner markup of element `i` with blank children dropped: the markup
/// of each child (index at least `from`) whose rendered text is not empty
/// or all-whitespace, concatenated in document order.
pub open spec fn spec_filtered_inner(nodes: Seq<HtmlNode>, i: int, from: int) -> Seq<char>
    decreases nodes.len() - from,
{
    if from < 0 || from >= nodes.len() {
        Seq::empty()
    } else {
        (if nodes[from].parent == Some(i as usize) && i < from && !all_blank(
            spec_text_of(nodes, from),
        ) {
            spec_markup_of(nodes, from)
        } else {
            Seq::empty()
        }) + spec_filtered_inner(nodes, i, from + 1)
    }
}

impl Dom {
    /// The store's invariant: sound parent links throughout.
    pub open spec fn wf(&self) -> bool {
        nodes_wf(self.nodes@)
    }

    /// An empty page with no nodes.
    pub fn new() -> (d: Dom)
        ensures
            d.wf(),
            d.nodes@.len() == 0,
    {
        Dom { nodes: Vec::new() }
    }

    /// Append an element node under `parent` (or as a root) and return its
    /// index. Callers append nodes in document order: each node after its
    /// parent and after its earlier siblings and their subtrees.
    pub fn add_element(
        &mut self,
        parent: Option<usize>,
        tag: String,
        attrs: Vec<HtmlAttr>,
    ) -> (i: usize)
        requires
            old(self).wf(),
            match parent {
                Some(p) => p < old(self).nodes@.len() && (old(self).nodes@[p as int].data
                    is Element),
                None => true,
            },
        ensures
            final(self).wf(),
            i == old(self).nodes@.len(),
            final(self).nodes@ == old(self).nodes@.push(
                (HtmlNode { parent, data: NodeData::Element { tag, attrs } }),
            ),
    {
        let i = self.nodes.len();
        self.nodes.push(HtmlNode { parent, data: NodeData::Element { tag, attrs } });
        proof {
            assert forall|k: int| 0 <= k < self.nodes@.len() implies parent_ok(
                self.nodes@,
                k,
            ) by {
                if k < i {
                    assert(parent_ok(old(self).nodes@, k));
                }
            }
        }
        i
    }

    /// Append a text node under `parent` (or as a root) and return its
    /// index.
    pub fn add_text(&mut self, parent: Option<usize>, text: String) -> (i: usize)
        requires
            old(self).wf(),
            match parent {
                Some(p) => p < old(self).nodes@.len() && (old(self).nodes@[p as int].data
                    is Element),
                None => true,
            },
        ensures
            final(self).wf(),
            i == old(self).nodes@.len(),
            final(self).nodes@ == old(self).nodes@.push(
                (HtmlNode { parent, data: NodeData::Text { text } }),
            ),
    {
        let i = self.nodes.len();
        self.nodes.push(HtmlNode { parent, data: NodeData::Text { text } });
        proof {
            assert forall|k: int| 0 <= k < self.nodes@.len() implies parent_ok(
                self.nodes@,
                k,
            ) by {
                if k < i {
                    assert(parent_ok(old(self).nodes@, k));
                }
            }
        }
        i
    }

    /// The number of nodes in the store.
    pub fn len(&self) -> (n: usize)
        ensures
            n == self.nodes@.len(),
    {
        self.nodes.len()
    }

    /// The value of the first attribute named `name` on element `i`, if
    /// any; `None` for a text node.
    #[verifier::loop_isolation(false)]
    pub fn attr_value(&self, i: usize, name: &str) -> (r: Option<String>)
        requires
            i < self.nodes@.len(),
        ensures
            match self.nodes@[i as int].data {
                NodeData::Element { tag: _, attrs } => match r {
                    Some(v) => Some(v@) == spec_attr_value(attrs@, name@),
                    None => spec_attr_value(attrs@, name@) is None,
                },
                NodeData::Text { .. } => r is None,
            },
    {
        match &self.nodes[i].data {
            NodeData::Text { .. } => None,
            NodeData::Element { tag: _, attrs } => {
                let mut k: usize = 0;
                while k < attrs.len()
                    invariant
                        k <= attrs@.len(),
                        spec_attr_value(attrs@, name@) == spec_attr_value_from(
                            attrs@,
                            name@,
                            k as int,
                        ),
                    decreases attrs@.len() - k,
                {
                    if crate::text::str_eq(attrs[k].name.as_str(), name) {
                        return Some(attrs[k].value.clone());
                    }
                    k = k + 1;
                }
                None
            },
        }
    }

    /// The rendered text of the subtree rooted at node `i`.
    pub fn text_of(&self, i: usize) -> (out: String)
        requires
            self.wf(),
            i < self.nodes@.len(),
        ensures
            out@ == spec_text_of(self.nodes@, i as int),
        decreases self.nodes@.len() - i,
    {
        match &self.nodes[i].data {
            NodeData::Text { text } => text.clone(),
            NodeData::Element { .. } => {
                let n = self.nodes.len();
                let mut out = String::new();
                let mut c: usize = i + 1;
                proof {
                    assert(out@ + spec_text_children(self.nodes@, i as int, i + 1)
                        =~= spec_text_children(self.nodes@, i as int, i + 1));
                }
                while c < n
                    invariant
                        self.wf(),
                        n == self.nodes@.len(),
                        i < c <= self.nodes@.len(),
                        out@ + spec_text_children(self.nodes@, i as int, c as int)
                            == spec_text_children(self.nodes@, i as int, i + 1),
                    decreases self.nodes@.len() - c,
                {
                    let is_child = match self.nodes[c].parent {
                        Some(p) => p == i,
                        None => false,
                    };
                    if is_child {
                        let t = self.text_of(c);
                        proof {
                            assert(spec_text_children(self.nodes@, i as int, c as int)
                                == spec_text_of(self.nodes@, c as int) + spec_text_children(
                                self.nodes@,
                                i as int,
                                c + 1,
                            ));
                        }
                        out.append(t.as_str());
                        proof {
                            assert(out@ + spec_text_children(self.nodes@, i as int, c + 1)
                                =~= spec_text_children(self.nodes@, i as int, i + 1));
                        }
                    }
                    c = c + 1;
                }
                proof {
                    assert(spec_text_children(self.nodes@, i as int, c as int)
                        =~= Seq::<char>::empty());
                    assert(out@ + Seq::<char>::empty() =~= out@);
                }
                out
            },
        }
    }

    /// The markup of the subtree rooted at node `i`.
    pub fn markup_of(&self, i: usize) -> (out: String)
        requires
            self.wf(),
            i < self.nodes@.len(),
        ensures
            out@ == spec_markup_of(self.nodes@, i as int),
        decreases self.nodes@.len() - i,
    {
        match &self.nodes[i].data {
            NodeData::Text { text } => text.clone(),
            NodeData::Element { tag, attrs } => {
                proof {
                    reveal_strlit("<");
                    reveal_strlit(">");
                    reveal_strlit("</");
                    reveal_strlit(" ");
                    reveal_strlit("=\"");
                    reveal_strlit("\"");
                }
                let mut out = String::new();
                out.append("<");
                out.append(tag.as_str());
                proof {
                    assert(out@ =~= seq!['<'] + tag@);
                }
                let mut k: usize = 0;
                while k < attrs.len()
                    invariant
                        out@ + spec_attrs_markup(attrs@, k as int) == seq!['<'] + tag@
                            + spec_attrs_markup(attrs@, 0),
                        k <= attrs@.len(),
                    decreases attrs@.len() - k,
                {
                    proof {
                        reveal_strlit(" ");
                        reveal_strlit("=\"");
                        reveal_strlit("\"");
                    }
                    out.append(" ");
                    out.append(attrs[k].name.as_str());
                    out.append("=\"");
                    out.append(attrs[k].value.as_str());
                    out.append("\"");
                    proof {
                        assert(out@ + spec_attrs_markup(attrs@, k + 1) =~= seq!['<'] + tag@
                            + spec_attrs_markup(attrs@, 0));
                    }
                    k = k + 1;
                }
                out.append(">");
                proof {
                    assert(spec_attrs_markup(attrs@, k as int) =~= Seq::<char>::empty());
                    assert(out@ =~= seq!['<'] + tag@ + spec_attrs_markup(attrs@, 0) + seq!['>']);
                }
                let ghost head: Seq<char> = out@;
                let n = self.nodes.len();
                let mut c: usize = i + 1;
                proof {
                    assert(out@ + spec_markup_children(self.nodes@, i as int, i + 1) =~= head
                        + spec_markup_children(self.nodes@, i as int, i + 1));
                }
                while c < n
                    invariant
                        self.wf(),
                        n == self.nodes@.len(),
                        i < c <= self.nodes@.len(),
                        out@ + spec_markup_children(self.nodes@, i as int, c as int) == head
                            + spec_markup_children(self.nodes@, i as int, i + 1),
                    decreases self.nodes@.len() - c,
                {
                    let is_child = match self.nodes[c].parent {
                        Some(p) => p == i,
                        None => false,
                    };
                    if is_child {
                        let m = self.markup_of(c);
                        proof {
                            assert(spec_markup_children(self.nodes@, i as int, c as int)
                                == spec_markup_of(self.nodes@, c as int) + spec_markup_children(
                                self.nodes@,
                                i as int,
                                c + 1,
                            ));
                        }
                        out.append(m.as_str());
                        proof {
                            assert(out@ + spec_markup_children(self.nodes@, i as int, c + 1)
                                =~= head + spec_markup_children(self.nodes@, i as int, i + 1));
                        }
                    }
                    c = c + 1;
                }
                proof {
                    assert(spec_markup_children(self.nodes@, i as int, c as int)
                        =~= Seq::<char>::empty());
                    assert(out@ =~= head + spec_markup_children(self.nodes@, i as int, i + 1));
                }
                out.append("</");
                out.append(tag.as_str());
                out.append(">");
                proof {
                    assert(out@ =~= spec_markup_of(self.nodes@, i as int));
                }
                out
            },
        }
    }

    /// The inner markup of element `i` with blank children dropped: the
    /// markup of each child whose rendered text is not empty or
    /// all-whitespace, concatenated in document order.
    pub fn filtered_inner_markup(&self, i: usize) -> (out: String)
        requires
            self.wf(),
            i < self.nodes@.len(),
        ensures
            out@ == spec_filtered_inner(self.nodes@, i as int, i + 1),
    {
        let n = self.nodes.len();
        let mut out = String::new();
        let mut c: usize = i + 1;
        proof {
            assert(out@ + spec_filtered_inner(self.nodes@, i as int, i + 1)
                =~= spec_filtered_inner(self.nodes@, i as int, i + 1));
        }
        while c < n
            invariant
                self.wf(),
                n == self.nodes@.len(),
                i < c <= self.nodes@.len(),
                out@ + spec_filtered_inner(self.nodes@, i as int, c as int)
                    == spec_filtered_inner(self.nodes@, i as int, i + 1),
            decreases self.nodes@.len() - c,
        {
            let is_child = match self.nodes[c].parent {
                Some(p) => p == i,
                None => false,
            };
            if is_child {
                let t = self.text_of(c);
                if !crate::text::is_blank(t.as_str()) {
                    let m = self.markup_of(c);
                    proof {
                        assert(spec_filtered_inner(self.nodes@, i as int, c as int)
                            == spec_markup_of(self.nodes@, c as int) + spec_filtered_inner(
                            self.nodes@,
                            i as int,
                            c + 1,
                        ));
                    }
                    out.append(m.as_str());
                    proof {
                        assert(out@ + spec_filtered_inner(self.nodes@, i as int, c + 1)
                            =~= spec_filtered_inner(self.nodes@, i as int, i + 1));
                    }
                }
            }
            c = c + 1;
        }
        proof {
            assert(spec_filtered_inner(self.nodes@, i as int, c as int) =~= Seq::<char>::empty());
            assert(out@ + Seq::<char>::empty() =~= out@);
        }
        out
    }
}

} // verus!

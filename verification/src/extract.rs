//! The two fixed extraction recipes of the target site: fiction metadata
//! (title and author) from a fiction index page, and a chapter fragment
//! (title heading plus filtered body markup) from a chapter page.

use vstd::prelude::*;

use crate::dom::{Dom, spec_filtered_inner, spec_markup_of, spec_text_of};
use crate::query::{Selector, SpecSelector, find_first, spec_first_match};

verus! {

/// Why an extraction failed: the expected element was absent, or a chapter
/// identifier could not be parsed from a row's attribute.
#[derive(Debug, PartialEq, Eq, Structural)]
pub enum ExtractError {
    NotFound,
    RegexMismatch,
}

/// Fiction metadata: the page's title and author text.
#[derive(Debug)]
pub struct Metadata {
    pub title: String,
    pub author: String,
}

/// The fiction-title recipe: an `h1` below an element of class
/// `fic-title`.
pub open spec fn fiction_title_sel() -> SpecSelector {
    SpecSelector::Within(
        Box::new(SpecSelector::Class("fic-title"@)),
        Box::new(SpecSelector::Tag("h1"@)),
    )
}

/// The fiction-author recipe: an `a` below a `span` below an `h4` below a
/// `div` of class `col-md-5`.
pub open spec fn fiction_author_sel() -> SpecSelector {
    SpecSelector::Within(
        Box::new(
            SpecSelector::Within(
                Box::new(
                    SpecSelector::Within(
                        Box::new(
                            SpecSelector::Both(
                                Box::new(SpecSelector::Class("col-md-5"@)),
                                Box::new(SpecSelector::Tag("div"@)),
                            ),
                        ),
                        Box::new(SpecSelector::Tag("h4"@)),
                    ),
                ),
                Box::new(SpecSelector::Tag("span"@)),
            ),
        ),
        Box::new(SpecSelector::Tag("a"@)),
    )
}

/// The chapter-title recipe: an `h1` below a `div` of class `col-md-5`.
pub open spec fn chapter_title_sel() -> SpecSelector {
    SpecSelector::Within(
        Box::new(
            SpecSelector::Both(
                Box::new(SpecSelector::Tag("div"@)),
                Box::new(SpecSelector::Class("col-md-5"@)),
            ),
        ),
        Box::new(SpecSelector::Tag("h1"@)),
    )
}

/// The chapter-body recipe: an element carrying both the `chapter-inner`
/// and the `chapter-content` class.
pub open spec fn chapter_content_sel() -> SpecSelector {
    SpecSelector::Both(
        Box::new(SpecSelector::Class("chapter-inner"@)),
        Box::new(SpecSelector::Class("chapter-content"@)),
    )
}

/// Build the fiction-title selector.
pub fn make_fiction_title_sel() -> (s: Selector)
    ensures
        s@ == fiction_title_sel(),
{
    let s = Selector::Within(
        Box::new(Selector::Class("fic-title".to_owned())),
        Box::new(Selector::Tag("h1".to_owned())),
    );
    proof {
        reveal_with_fuel(crate::query::sel_view, 10);
        assert(s@ =~~= fiction_title_sel());
    }
    s
}

/// Build the fiction-author selector.
pub fn make_fiction_author_sel() -> (s: Selector)
    ensures
        s@ == fiction_author_sel(),
{
    let s = Selector::Within(
        Box::new(
            Selector::Within(
                Box::new(
                    Selector::Within(
                        Box::new(
                            Selector::Both(
                                Box::new(Selector::Class("col-md-5".to_owned())),
                                Box::new(Selector::Tag("div".to_owned())),
                            ),
                        ),
                        Box::new(Selector::Tag("h4".to_owned())),
                    ),
                ),
                Box::new(Selector::Tag("span".to_owned())),
            ),
        ),
        Box::new(Selector::Tag("a".to_owned())),
    );
    proof {
        reveal_with_fuel(crate::query::sel_view, 10);
        assert(s@ =~~= fiction_author_sel());
    }
    s
}

/// Build the chapter-title selector.
pub fn make_chapter_title_sel() -> (s: Selector)
    ensures
        s@ == chapter_title_sel(),
{
    let s = Selector::Within(
        Box::new(
            Selector::Both(
                Box::new(Selector::Tag("div".to_owned())),
                Box::new(Selector::Class("col-md-5".to_owned())),
            ),
        ),
        Box::new(Selector::Tag("h1".to_owned())),
    );
    proof {
        reveal_with_fuel(crate::query::sel_view, 10);
        assert(s@ =~~= chapter_title_sel());
    }
    s
}

/// Build the chapter-body selector.
pub fn make_chapter_content_sel() -> (s: Selector)
    ensures
        s@ == chapter_content_sel(),
{
    let s = Selector::Both(
        Box::new(Selector::Class("chapter-inner".to_owned())),
        Box::new(Selector::Class("chapter-content".to_owned())),
    );
    proof {
        reveal_with_fuel(crate::query::sel_view, 10);
        assert(s@ =~~= chapter_content_sel());
    }
    s
}

/// Extract the fiction's metadata: the rendered text of the first node
/// matching the title recipe and of the first node matching the author
/// recipe. Fails with `NotFound` exactly when either recipe finds no node.
pub fn get_metadata(dom: &Dom) -> (r: Result<Metadata, ExtractError>)
    requires
        dom.wf(),
    ensures
        match r {
            Ok(m) => {
                &&& spec_first_match(dom.nodes@, fiction_title_sel()) matches Some(t)
                    && m.title@ == spec_text_of(dom.nodes@, t)
                &&& spec_first_match(dom.nodes@, fiction_author_sel()) matches Some(a)
                    && m.author@ == spec_text_of(dom.nodes@, a)
            },
            Err(e) => e == ExtractError::NotFound && (spec_first_match(
                dom.nodes@,
                fiction_title_sel(),
            ) is None || spec_first_match(dom.nodes@, fiction_author_sel()) is None),
        },
{
    let tsel = make_fiction_title_sel();
    let t = match find_first(dom, &tsel) {
        Some(t) => t,
        None => {
            return Err(ExtractError::NotFound);
        },
    };
    let asel = make_fiction_author_sel();
    let a = match find_first(dom, &asel) {
        Some(a) => a,
        None => {
            return Err(ExtractError::NotFound);
        },
    };
    Ok(Metadata { title: dom.text_of(t), author: dom.text_of(a) })
}

/// Extract a chapter's fragment: the markup of the first node matching the
/// chapter-title recipe, followed by the inner markup of the first node
/// matching the chapter-body recipe with blank children dropped. Fails
/// with `NotFound` exactly when either recipe finds no node.
pub fn chapter_fragment(dom: &Dom) -> (r: Result<String, ExtractError>)
    requires
        dom.wf(),
    ensures
        match r {
            Ok(s) => {
                &&& spec_first_match(dom.nodes@, chapter_title_sel()) matches Some(t)
                    && spec_first_match(dom.nodes@, chapter_content_sel()) matches Some(c)
                    && s@ == spec_markup_of(dom.nodes@, t) + spec_filtered_inner(
                    dom.nodes@,
                    c,
                    c + 1,
                )
            },
            Err(e) => e == ExtractError::NotFound && (spec_first_match(
                dom.nodes@,
                chapter_title_sel(),
            ) is None || spec_first_match(dom.nodes@, chapter_content_sel()) is None),
        },
{
    let tsel = make_chapter_title_sel();
    let t = match find_first(dom, &tsel) {
        Some(t) => t,
        None => {
            return Err(ExtractError::NotFound);
        },
    };
    let csel = make_chapter_content_sel();
    let c = match find_first(dom, &csel) {
        Some(c) => c,
        None => {
            return Err(ExtractError::NotFound);
        },
    };
    let mut out = dom.markup_of(t);
    let inner = dom.filtered_inner_markup(c);
    out.append(inner.as_str());
    Ok(out)
}

} // verus!

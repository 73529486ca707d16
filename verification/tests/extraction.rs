//! Fixture-based tests of the extraction recipes and the chapter resolver.

use royalpdf::dom::{Dom, HtmlAttr};
use royalpdf::extract::{chapter_fragment, get_metadata, ExtractError};
use royalpdf::resolve::resolve_chapter_ids;

fn attr(name: &str, value: &str) -> HtmlAttr {
    HtmlAttr { name: name.to_string(), value: value.to_string() }
}

fn fiction_index_dom(ids: &[&str]) -> Dom {
    let mut dom = Dom::new();
    let html = dom.add_element(None, "html".to_string(), Vec::new());
    let fic = dom.add_element(Some(html), "div".to_string(), vec![attr("class", "fic-title")]);
    let h1 = dom.add_element(Some(fic), "h1".to_string(), Vec::new());
    dom.add_text(Some(h1), "The Long Road".to_string());
    let col = dom.add_element(Some(html), "div".to_string(), vec![attr("class", "col-md-5")]);
    let h4 = dom.add_element(Some(col), "h4".to_string(), Vec::new());
    let span = dom.add_element(Some(h4), "span".to_string(), Vec::new());
    let a = dom.add_element(Some(span), "a".to_string(), Vec::new());
    dom.add_text(Some(a), "An Author".to_string());
    let table = dom.add_element(Some(html), "table".to_string(), Vec::new());
    let tbody = dom.add_element(Some(table), "tbody".to_string(), Vec::new());
    for id in ids {
        let url = format!("/fiction/7/the-long-road/chapter/{}/some-title", id);
        let tr = dom.add_element(Some(tbody), "tr".to_string(), vec![attr("data-url", &url)]);
        let td = dom.add_element(Some(tr), "td".to_string(), Vec::new());
        dom.add_text(Some(td), "a chapter".to_string());
    }
    dom
}

fn chapter_dom(title: &str, paragraphs: &[&str]) -> Dom {
    let mut dom = Dom::new();
    let html = dom.add_element(None, "html".to_string(), Vec::new());
    let col = dom.add_element(Some(html), "div".to_string(), vec![attr("class", "col-md-5")]);
    let h1 = dom.add_element(Some(col), "h1".to_string(), Vec::new());
    dom.add_text(Some(h1), title.to_string());
    let content = dom.add_element(
        Some(html),
        "div".to_string(),
        vec![attr("class", "chapter-inner chapter-content")],
    );
    for p in paragraphs {
        let para = dom.add_element(Some(content), "p".to_string(), Vec::new());
        dom.add_text(Some(para), p.to_string());
    }
    dom
}

#[test]
fn metadata_exact_title_and_author() {
    let dom = fiction_index_dom(&["12"]);
    let m = get_metadata(&dom).expect("metadata should be found");
    assert_eq!(m.title, "The Long Road");
    assert_eq!(m.author, "An Author");
}

#[test]
fn metadata_missing_title_is_not_found() {
    let mut dom = Dom::new();
    let html = dom.add_element(None, "html".to_string(), Vec::new());
    dom.add_text(Some(html), "nothing here".to_string());
    assert_eq!(get_metadata(&dom).unwrap_err(), ExtractError::NotFound);
}

#[test]
fn metadata_missing_author_is_not_found() {
    let mut dom = Dom::new();
    let html = dom.add_element(None, "html".to_string(), Vec::new());
    let fic = dom.add_element(Some(html), "div".to_string(), vec![attr("class", "fic-title")]);
    let h1 = dom.add_element(Some(fic), "h1".to_string(), Vec::new());
    dom.add_text(Some(h1), "Orphaned".to_string());
    assert_eq!(get_metadata(&dom).unwrap_err(), ExtractError::NotFound);
}

#[test]
fn resolver_returns_ids_in_document_order() {
    let dom = fiction_index_dom(&["12", "45", "99"]);
    let ids = resolve_chapter_ids(&dom).expect("all rows are well-formed");
    assert_eq!(ids, vec!["12".to_string(), "45".to_string(), "99".to_string()]);
}

#[test]
fn resolver_keeps_duplicates_and_order() {
    let dom = fiction_index_dom(&["9", "9", "3"]);
    let ids = resolve_chapter_ids(&dom).expect("all rows are well-formed");
    assert_eq!(ids, vec!["9".to_string(), "9".to_string(), "3".to_string()]);
}

#[test]
fn resolver_empty_page_gives_no_ids() {
    let mut dom = Dom::new();
    dom.add_element(None, "html".to_string(), Vec::new());
    let ids = resolve_chapter_ids(&dom).expect("no rows, no failures");
    assert!(ids.is_empty());
}

#[test]
fn resolver_rejects_unmatched_data_url() {
    let mut bad = Dom::new();
    let html = bad.add_element(None, "html".to_string(), Vec::new());
    let table = bad.add_element(Some(html), "table".to_string(), Vec::new());
    let tbody = bad.add_element(Some(table), "tbody".to_string(), Vec::new());
    bad.add_element(Some(tbody), "tr".to_string(), vec![attr("data-url", "/fiction/7/no-id-here")]);
    assert_eq!(resolve_chapter_ids(&bad).unwrap_err(), ExtractError::RegexMismatch);
}

#[test]
fn resolver_rejects_missing_data_url() {
    let mut dom = Dom::new();
    let html = dom.add_element(None, "html".to_string(), Vec::new());
    let table = dom.add_element(Some(html), "table".to_string(), Vec::new());
    let tbody = dom.add_element(Some(table), "tbody".to_string(), Vec::new());
    dom.add_element(Some(tbody), "tr".to_string(), Vec::new());
    assert_eq!(resolve_chapter_ids(&dom).unwrap_err(), ExtractError::RegexMismatch);
}

#[test]
fn chapter_fragment_drops_blank_children() {
    let dom = chapter_dom("Chapter Two", &["   ", "First words.", "\t\n", "More words."]);
    let frag = chapter_fragment(&dom).expect("title and content are present");
    assert_eq!(frag, "<h1>Chapter Two</h1><p>First words.</p><p>More words.</p>");
}

#[test]
fn chapter_fragment_single_paragraph() {
    let dom = chapter_dom("Chapter One", &["", "Only content."]);
    let frag = chapter_fragment(&dom).expect("title and content are present");
    assert_eq!(frag, "<h1>Chapter One</h1><p>Only content.</p>");
}

#[test]
fn chapter_fragment_missing_content_is_not_found() {
    let mut dom = Dom::new();
    let html = dom.add_element(None, "html".to_string(), Vec::new());
    let col = dom.add_element(Some(html), "div".to_string(), vec![attr("class", "col-md-5")]);
    let h1 = dom.add_element(Some(col), "h1".to_string(), Vec::new());
    dom.add_text(Some(h1), "Chapter One".to_string());
    assert_eq!(chapter_fragment(&dom).unwrap_err(), ExtractError::NotFound);
}

#[test]
fn chapter_fragment_keeps_attributes_in_markup() {
    let mut dom = Dom::new();
    let html = dom.add_element(None, "html".to_string(), Vec::new());
    let col = dom.add_element(Some(html), "div".to_string(), vec![attr("class", "col-md-5")]);
    let h1 = dom.add_element(Some(col), "h1".to_string(), Vec::new());
    dom.add_text(Some(h1), "T".to_string());
    let content = dom.add_element(
        Some(html),
        "div".to_string(),
        vec![attr("class", "chapter-inner chapter-content")],
    );
    let para = dom.add_element(Some(content), "p".to_string(), vec![attr("id", "x")]);
    dom.add_text(Some(para), "body".to_string());
    let frag = chapter_fragment(&dom).expect("present");
    assert_eq!(frag, "<h1>T</h1><p id=\"x\">body</p>");
}

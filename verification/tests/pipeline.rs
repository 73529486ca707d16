//! Tests of the identifier pattern, document assembly, URLs, command
//! parsing, and the retry policy, plus the end-to-end scenarios.

use royalpdf::cli::{parse_command, CliError, Command};
use royalpdf::document::{
    assemble_document, chapter_url, concat_fragments, fiction_document, fiction_url,
    metadata_header,
};
use royalpdf::dom::{Dom, HtmlAttr};
use royalpdf::extract::{chapter_fragment, get_metadata, Metadata};
use royalpdf::policy::{backoff, RetryDecision, RetryPolicy};
use royalpdf::query::contains_word;
use royalpdf::resolve::{capture_chapter_id, resolve_chapter_ids};

fn attr(name: &str, value: &str) -> HtmlAttr {
    HtmlAttr { name: name.to_string(), value: value.to_string() }
}

fn fiction_index_dom(ids: &[&str]) -> Dom {
    let mut dom = Dom::new();
    let html = dom.add_element(None, "html".to_string(), Vec::new());
    let fic = dom.add_element(Some(html), "div".to_string(), vec![attr("class", "fic-title")]);
    let h1 = dom.add_element(Some(fic), "h1".to_string(), Vec::new());
    dom.add_text(Some(h1), "The Long Road".to_string());
    let col = dom.add_element(Some(html), "div".to_string(), vec![attr("class", "col-md-5")]);
    let h4 = dom.add_element(Some(col), "h4".to_string(), Vec::new());
    let span = dom.add_element(Some(h4), "span".to_string(), Vec::new());
    let a = dom.add_element(Some(span), "a".to_string(), Vec::new());
    dom.add_text(Some(a), "An Author".to_string());
    let table = dom.add_element(Some(html), "table".to_string(), Vec::new());
    let tbody = dom.add_element(Some(table), "tbody".to_string(), Vec::new());
    for id in ids {
        let url = format!("/fiction/7/the-long-road/chapter/{}/some-title", id);
        dom.add_element(Some(tbody), "tr".to_string(), vec![attr("data-url", &url)]);
    }
    dom
}

fn chapter_dom(title: &str, paragraphs: &[&str]) -> Dom {
    let mut dom = Dom::new();
    let html = dom.add_element(None, "html".to_string(), Vec::new());
    let col = dom.add_element(Some(html), "div".to_string(), vec![attr("class", "col-md-5")]);
    let h1 = dom.add_element(Some(col), "h1".to_string(), Vec::new());
    dom.add_text(Some(h1), title.to_string());
    let content = dom.add_element(
        Some(html),
        "div".to_string(),
        vec![attr("class", "chapter-inner chapter-content")],
    );
    for p in paragraphs {
        let para = dom.add_element(Some(content), "p".to_string(), Vec::new());
        dom.add_text(Some(para), p.to_string());
    }
    dom
}

#[test]
fn capture_simple_id() {
    let id = capture_chapter_id("/fiction/7/the-long-road/chapter/678910/chapter-name");
    assert_eq!(id, Some("678910".to_string()));
}

#[test]
fn capture_is_greedy_up_to_last_slash() {
    let id = capture_chapter_id("/chapter/12/34/56");
    assert_eq!(id, Some("12/34".to_string()));
}

#[test]
fn capture_starts_at_leftmost_marker() {
    let id = capture_chapter_id("/x/chapter/a/chapter/b/c");
    assert_eq!(id, Some("a/chapter/b".to_string()));
}

#[test]
fn capture_needs_marker() {
    assert_eq!(capture_chapter_id("/fiction/7/no-id-here"), None);
}

#[test]
fn capture_needs_tail_after_id() {
    assert_eq!(capture_chapter_id("/chapter/12"), None);
    assert_eq!(capture_chapter_id("/chapter/12/"), None);
}

#[test]
fn capture_needs_nonempty_id() {
    assert_eq!(capture_chapter_id("/chapter//x"), None);
}

#[test]
fn class_word_matching() {
    assert!(contains_word("chapter-inner chapter-content", "chapter-inner"));
    assert!(contains_word("chapter-inner chapter-content", "chapter-content"));
    assert!(!contains_word("chapter-innermost", "chapter-inner"));
    assert!(!contains_word("chapter", ""));
}

#[test]
fn header_and_shell_are_exact() {
    let m = Metadata { title: "T".to_string(), author: "A".to_string() };
    assert_eq!(metadata_header(&m), "<h1>T</h1></br><h2>A</h2>");
    assert_eq!(
        assemble_document("X"),
        "<html><head><meta charset=\"utf-8\"></head><body>X</body></html>"
    );
}

#[test]
fn fragments_concatenate_in_order() {
    let frags = vec!["a".to_string(), "".to_string(), "bc".to_string()];
    assert_eq!(concat_fragments(&frags), "abc");
}

#[test]
fn urls_are_exact() {
    assert_eq!(fiction_url("123"), "http://royalroadl.com/fiction/123");
    assert_eq!(chapter_url("678910"), "http://royalroadl.com/fiction/chapter/678910");
}

#[test]
fn fiction_export_orders_header_then_chapters() {
    let index = fiction_index_dom(&["12", "45", "99"]);
    let m = get_metadata(&index).expect("metadata present");
    let ids = resolve_chapter_ids(&index).expect("rows well-formed");
    assert_eq!(ids, vec!["12".to_string(), "45".to_string(), "99".to_string()]);

    let mut frags = Vec::new();
    for id in &ids {
        let title = format!("Chapter {}", id);
        let body = format!("Body of {}.", id);
        let ch = chapter_dom(&title, &[&body]);
        frags.push(chapter_fragment(&ch).expect("chapter parts present"));
    }
    let doc = fiction_document(&m, &frags);
    let expected = format!(
        "<html><head><meta charset=\"utf-8\"></head><body>\
         <h1>The Long Road</h1></br><h2>An Author</h2>\
         <h1>Chapter 12</h1><p>Body of 12.</p>\
         <h1>Chapter 45</h1><p>Body of 45.</p>\
         <h1>Chapter 99</h1><p>Body of 99.</p>\
         </body></html>"
    );
    assert_eq!(doc, expected);
}

#[test]
fn single_chapter_export_has_title_and_one_paragraph() {
    let ch = chapter_dom("Chapter One", &["", "Only content."]);
    let frag = chapter_fragment(&ch).expect("chapter parts present");
    let doc = royalpdf::document::chapter_document(&frag);
    assert_eq!(
        doc,
        "<html><head><meta charset=\"utf-8\"></head><body>\
         <h1>Chapter One</h1><p>Only content.</p></body></html>"
    );
}

#[test]
fn rerun_is_byte_identical() {
    let run = || {
        let index = fiction_index_dom(&["12", "45"]);
        let m = get_metadata(&index).unwrap();
        let ids = resolve_chapter_ids(&index).unwrap();
        let mut frags = Vec::new();
        for id in &ids {
            let ch = chapter_dom(&format!("Chapter {}", id), &["Words.", " "]);
            frags.push(chapter_fragment(&ch).unwrap());
        }
        fiction_document(&m, &frags)
    };
    let first = run();
    let second = run();
    assert_eq!(first.as_bytes(), second.as_bytes());
}

#[test]
fn parse_fiction_command() {
    let args = vec!["fiction".to_string(), "123".to_string()];
    match parse_command(&args) {
        Ok(Command::Fiction(id)) => assert_eq!(id, "123"),
        _ => panic!("expected the fiction subcommand"),
    }
}

#[test]
fn parse_chapter_command() {
    let args = vec!["chapter".to_string(), "9".to_string()];
    match parse_command(&args) {
        Ok(Command::Chapter(id)) => assert_eq!(id, "9"),
        _ => panic!("expected the chapter subcommand"),
    }
}

#[test]
fn unknown_or_missing_subcommand_is_usage_error() {
    assert_eq!(parse_command(&Vec::new()).unwrap_err(), CliError::Usage);
    let args = vec!["volume".to_string(), "1".to_string()];
    assert_eq!(parse_command(&args).unwrap_err(), CliError::Usage);
    let args = vec!["fiction".to_string()];
    assert_eq!(parse_command(&args).unwrap_err(), CliError::Usage);
    let args = vec!["fiction".to_string(), "1".to_string(), "2".to_string()];
    assert_eq!(parse_command(&args).unwrap_err(), CliError::Usage);
}

#[test]
fn retry_policy_backs_off_then_gives_up() {
    let p = RetryPolicy { max_retries: 3, base_delay_ms: 100 };
    assert_eq!(p.decide(0), RetryDecision::Retry { delay_ms: 100 });
    assert_eq!(p.decide(1), RetryDecision::Retry { delay_ms: 200 });
    assert_eq!(p.decide(2), RetryDecision::Retry { delay_ms: 400 });
    assert_eq!(p.decide(3), RetryDecision::GiveUp);
    assert_eq!(p.decide(100), RetryDecision::GiveUp);
}

#[test]
fn backoff_saturates_instead_of_overflowing() {
    assert_eq!(backoff(1, 63), 1u64 << 63);
    assert_eq!(backoff(1, 64), u64::MAX);
    assert_eq!(backoff(0, 17), 0);
}

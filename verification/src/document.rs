//! Final document assembly: the metadata header, the ordered concatenation
//! of chapter fragments, the minimal HTML shell with UTF-8 declared, and
//! the two fetch URLs of the target site.

use vstd::prelude::*;

use crate::extract::Metadata;

verus! {

/// The metadata header's markup: the title as an `h1`, then a break and
/// the author as an `h2`.
pub open spec fn spec_header(title: Seq<char>, author: Seq<char>) -> Seq<char> {
    "<h1>"@ + title + "</h1></br><h2>"@ + author + "</h2>"@
}

/// The concatenation of the fragments from position `from` on, in order.
pub open spec fn spec_concat_fragments(frags: Seq<String>, from: int) -> Seq<char>
    decreases frags.len() - from,
{
    if from < 0 || from >= frags.len() {
        Seq::empty()
    } else {
        frags[from]@ + spec_concat_fragments(frags, from + 1)
    }
}

/// The document shell around a body: a minimal HTML page with UTF-8
/// declared.
pub open spec fn spec_shell(body: Seq<char>) -> Seq<char> {
    "<html><head><meta charset=\"utf-8\"></head><body>"@ + body + "</body></html>"@
}

/// The complete fiction document: the shell around the metadata header
/// followed by every chapter fragment in order.
pub open spec fn spec_fiction_document(
    title: Seq<char>,
    author: Seq<char>,
    frags: Seq<String>,
) -> Seq<char> {
    spec_shell(spec_header(title, author) + spec_concat_fragments(frags, 0))
}

/// Render the metadata header.
pub fn metadata_header(m: &Metadata) -> (r: String)
    ensures
        r@ == spec_header(m.title@, m.author@),
{
    let mut out = String::new();
    out.append("<h1>");
    out.append(m.title.as_str());
    out.append("</h1></br><h2>");
    out.append(m.author.as_str());
    out.append("</h2>");
    proof {
        assert(out@ =~= spec_header(m.title@, m.author@));
    }
    out
}

/// Concatenate chapter fragments in their given order.
pub fn concat_fragments(frags: &Vec<String>) -> (r: String)
    ensures
        r@ == spec_concat_fragments(frags@, 0),
{
    let mut out = String::new();
    let mut k: usize = 0;
    proof {
        assert(out@ + spec_concat_fragments(frags@, 0) =~= spec_concat_fragments(frags@, 0));
    }
    while k < frags.len()
        invariant
            k <= frags@.len(),
            out@ + spec_concat_fragments(frags@, k as int) == spec_concat_fragments(frags@, 0),
        decreases frags@.len() - k,
    {
        out.append(frags[k].as_str());
        proof {
            assert(out@ + spec_concat_fragments(frags@, k + 1) =~= spec_concat_fragments(
                frags@,
                0,
            ));
        }
        k = k + 1;
    }
    proof {
        assert(spec_concat_fragments(frags@, k as int) =~= Seq::<char>::empty());
        assert(out@ + Seq::<char>::empty() =~= out@);
    }
    out
}

/// Wrap a document body in the HTML shell.
pub fn assemble_document(body: &str) -> (r: String)
    ensures
        r@ == spec_shell(body@),
{
    let mut out = String::new();
    out.append("<html><head><meta charset=\"utf-8\"></head><body>");
    out.append(body);
    out.append("</body></html>");
    proof {
        assert(out@ =~= spec_shell(body@));
    }
    out
}

/// Build the complete fiction document: metadata header, then every
/// chapter fragment in order, inside the shell.
pub fn fiction_document(m: &Metadata, frags: &Vec<String>) -> (r: String)
    ensures
        r@ == spec_fiction_document(m.title@, m.author@, frags@),
{
    let mut body = metadata_header(m);
    let rest = concat_fragments(frags);
    body.append(rest.as_str());
    let out = assemble_document(body.as_str());
    proof {
        assert(out@ =~= spec_fiction_document(m.title@, m.author@, frags@));
    }
    out
}

/// Build the complete single-chapter document: the fragment alone inside
/// the shell.
pub fn chapter_document(fragment: &str) -> (r: String)
    ensures
        r@ == spec_shell(fragment@),
{
    assemble_document(fragment)
}

/// Fragment concatenation reads nothing but the fragments' text: two
/// fragment lists equal position by position concatenate to the same text.
pub proof fn lemma_concat_respects_views(f1: Seq<String>, f2: Seq<String>, from: int)
    requires
        f1.len() == f2.len(),
        forall|k: int| 0 <= k < f1.len() ==> f1[k]@ == f2[k]@,
    ensures
        spec_concat_fragments(f1, from) == spec_concat_fragments(f2, from),
    decreases f1.len() - from,
{
    if 0 <= from < f1.len() {
        lemma_concat_respects_views(f1, f2, from + 1);
    }
}

/// Law: document assembly is deterministic. It consults nothing but the
/// metadata text and the fragments' text, so runs over equal inputs yield
/// byte-identical documents.
pub proof fn lemma_document_deterministic(
    t1: Seq<char>,
    a1: Seq<char>,
    f1: Seq<String>,
    t2: Seq<char>,
    a2: Seq<char>,
    f2: Seq<String>,
)
    requires
        t1 == t2,
        a1 == a2,
        f1.len() == f2.len(),
        forall|k: int| 0 <= k < f1.len() ==> f1[k]@ == f2[k]@,
    ensures
        spec_fiction_document(t1, a1, f1) == spec_fiction_document(t2, a2, f2),
{
    lemma_concat_respects_views(f1, f2, 0);
}

/// The URL of a fiction's index page.
pub fn fiction_url(id: &str) -> (r: String)
    ensures
        r@ == "http://royalroadl.com/fiction/"@ + id@,
{
    let mut out = String::new();
    out.append("http://royalroadl.com/fiction/");
    out.append(id);
    proof {
        assert(out@ =~= "http://royalroadl.com/fiction/"@ + id@);
    }
    out
}

/// The URL of a chapter's content page.
pub fn chapter_url(id: &str) -> (r: String)
    ensures
        r@ == "http://royalroadl.com/fiction/chapter/"@ + id@,
{
    let mut out = String::new();
    out.append("http://royalroadl.com/fiction/chapter/");
    out.append(id);
    proof {
        assert(out@ =~= "http://royalroadl.com/fiction/chapter/"@ + id@);
    }
    out
}

} // verus!

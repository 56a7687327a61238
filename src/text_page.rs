//! Rendering a text chapter: its body text followed by navigation links.
use vstd::prelude::*;
use crate::error::Failure;
use crate::html::{document_selection, select_in_document, Element};
use crate::numbering::{chapter_name, push_chapter_name};

verus! {

/// Selector of the element that holds a text page's body.
pub const TEXT_SELECTOR: &'static str = "div[id=\"content\"]";

/// The attribute read off the text container (its id).
pub const TEXT_ATTR: &'static str = "id";

/// The body text of the page `html`: the text of the first text container.
pub open spec fn page_text_of(html: Seq<char>) -> Result<Seq<char>, Failure> {
    match document_selection(html, TEXT_SELECTOR@, TEXT_ATTR@) {
        Some(s) => if s.len() > 0 { Ok(s[0].1) } else { Err(Failure::ContentNotFound) },
        None => Err(Failure::ContentNotFound),
    }
}

/// The link line to the previous chapter `i`.
pub open spec fn prev_link(i: nat) -> Seq<char> {
    seq!['\n', '[', '上', '一', '页', ']', '('] + chapter_name(i) + seq![')']
}

/// The link line to the next chapter `i`.
pub open spec fn next_link(i: nat) -> Seq<char> {
    seq!['\n', '[', '下', '一', '页', ']', '('] + chapter_name(i) + seq![')']
}

/// The navigation links of chapter `i`: a next link only on the first
/// chapter, both neighbours on every other.
pub open spec fn nav_links(i: nat) -> Seq<char> {
    if i == 0 {
        next_link(1)
    } else {
        prev_link((i - 1) as nat) + next_link(i + 1)
    }
}

/// The document of text chapter `i` with body text `content`.
pub open spec fn text_document(content: Seq<char>, i: nat) -> Seq<char> {
    content + nav_links(i)
}

pub open spec fn text_result_model(r: Result<String, Failure>) -> Result<Seq<char>, Failure> {
    match r {
        Ok(s) => Ok(s@),
        Err(e) => Err(e),
    }
}

/// The body text of a text page: the text of its first text container, or
/// `ContentNotFound` where it has none.
pub fn get_page_text(html: &str) -> (r: Result<String, Failure>)
    ensures
        text_result_model(r) == page_text_of(html@),
{
    match select_in_document(html, TEXT_SELECTOR, TEXT_ATTR) {
        Some(mut v) => {
            if v.len() > 0 {
                let first: Element = v.swap_remove(0);
                Ok(first.text)
            } else {
                Err(Failure::ContentNotFound)
            }
        },
        None => Err(Failure::ContentNotFound),
    }
}

/// The document of text chapter `page_id`: `content`, then the links to its
/// neighbours by number, whether or not those chapters exist.
pub fn render_text_page(content: &str, page_id: usize) -> (r: String)
    requires
        page_id < usize::MAX,
    ensures
        r@ == text_document(content@, page_id as nat),
{
    proof {
        reveal_strlit("\n[上一页](");
        reveal_strlit("\n[下一页](");
        reveal_strlit(")");
    }
    let mut r = String::from_str(content);
    if page_id > 0 {
        r.append("\n[上一页](");
        push_chapter_name(&mut r, page_id - 1);
        r.append(")");
    }
    r.append("\n[下一页](");
    push_chapter_name(&mut r, page_id + 1);
    r.append(")");
    assert(r@ =~= text_document(content@, page_id as nat));
    r
}

/// The document of text chapter `page_id` fetched as `html`.
pub fn process_text_page(html: &str, page_id: usize) -> (r: Result<String, Failure>)
    requires
        page_id < usize::MAX,
    ensures
        text_result_model(r) == match page_text_of(html@) {
            Ok(c) => Ok(text_document(c, page_id as nat)),
            Err(e) => Err(e),
        },
{
    let content = get_page_text(html)?;
    Ok(render_text_page(content.as_str(), page_id))
}

/// The first chapter links only forward; every later chapter `i` links to
/// `i - 1` and `i + 1`, with no regard to whether they exist.
pub proof fn lemma_nav_links(content: Seq<char>, i: nat)
    ensures
        i == 0 ==> text_document(content, i) == content + next_link(1),
        i > 0 ==> text_document(content, i) == content + prev_link((i - 1) as nat) + next_link(i + 1),
{
    if i > 0 {
        assert(content + (prev_link((i - 1) as nat) + next_link(i + 1)) =~= content + prev_link((i - 1) as nat) + next_link(i + 1));
    }
}

} // verus!

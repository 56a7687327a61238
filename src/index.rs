//! Reading the ordered chapter list out of the index page.
use vstd::prelude::*;
use crate::error::Failure;
use crate::html::{select_in_document, select_in_fragment, document_selection, fragment_selection, Element, ElementModel};
use crate::numbering::{pad3, push_pad3};
use crate::strings::{str_strip_suffix, without_suffix};

verus! {

/// Selector of the table cells that carry chapter links.
pub const CELL_SELECTOR: &'static str = "td[class=\"ccss\"]";

/// Selector of the anchor inside a link cell.
pub const ANCHOR_SELECTOR: &'static str = "a";

/// The attribute that holds a chapter's relative URL.
pub const HREF: &'static str = "href";

/// One chapter as discovered on the index page.
pub struct ChapterLink {
    /// Position in discovery order, from 0.
    pub index: usize,
    pub title: String,
    /// Absolute source URL of the chapter.
    pub url: String,
}

/// A chapter link as plain values: index, title, URL.
pub type LinkModel = (nat, Seq<char>, Seq<char>);

impl View for ChapterLink {
    type V = LinkModel;

    open spec fn view(&self) -> LinkModel {
        (self.index as nat, self.title@, self.url@)
    }
}

/// The rendered index document and the chapters it lists.
pub struct IndexPage {
    pub body: String,
    pub links: Vec<ChapterLink>,
}

impl View for IndexPage {
    type V = (Seq<char>, Seq<LinkModel>);

    open spec fn view(&self) -> (Seq<char>, Seq<LinkModel>) {
        (self.body@, self.links@.map_values(|l: ChapterLink| l@))
    }
}

pub open spec fn index_result_model(r: Result<IndexPage, Failure>) -> Result<(Seq<char>, Seq<LinkModel>), Failure> {
    match r {
        Ok(p) => Ok(p@),
        Err(e) => Err(e),
    }
}

/// The anchors of the cells that hold one, in document order.
pub open spec fn found_anchors(anchors: Seq<Option<ElementModel>>) -> Seq<ElementModel> {
    anchors.filter_map(|a: Option<ElementModel>| a)
}

/// The cell holds an anchor, and the anchor no `href`.
pub open spec fn lacks_href(a: Option<ElementModel>) -> bool {
    match a {
        Some(x) => x.2 is None,
        None => false,
    }
}

/// Some cell holds an anchor without an `href`.
pub open spec fn has_missing_href(anchors: Seq<Option<ElementModel>>) -> bool {
    exists|i: int| 0 <= i < anchors.len() && lacks_href(#[trigger] anchors[i])
}

/// The index line `[title](./NNN.md)` of chapter `i`.
pub open spec fn index_line(i: nat, title: Seq<char>) -> Seq<char> {
    seq!['['] + title + seq![']', '(', '.', '/'] + pad3(i) + seq!['.', 'm', 'd', ')', '\n']
}

/// The index document listing the anchors `found`, one line each.
pub open spec fn index_body(found: Seq<ElementModel>) -> Seq<char>
    decreases found.len(),
{
    if found.len() == 0 {
        Seq::empty()
    } else {
        index_body(found.drop_last()) + index_line((found.len() - 1) as nat, found.last().1)
    }
}

/// The chapter links of the anchors `found`, numbered in order, each URL the
/// anchor's `href` after `base`.
pub open spec fn index_links(found: Seq<ElementModel>, base: Seq<char>) -> Seq<LinkModel> {
    Seq::new(found.len(), |i: int| (i as nat, found[i].1, base + found[i].2.unwrap()))
}

/// The index of a page whose link cells hold `anchors` (the first anchor of
/// each cell, if any), with `base` before each `href`.
pub open spec fn resolve(anchors: Seq<Option<ElementModel>>, base: Seq<char>) -> Result<(Seq<char>, Seq<LinkModel>), Failure> {
    if has_missing_href(anchors) {
        Err(Failure::MissingHref)
    } else {
        let found = found_anchors(anchors);
        Ok((index_body(found), index_links(found, base)))
    }
}

/// Appends the index line of chapter `i` to `body`.
fn push_index_line(body: &mut String, i: usize, title: &String)
    ensures
        final(body)@ == old(body)@ + index_line(i as nat, title@),
{
    proof {
        reveal_strlit("[");
        reveal_strlit("](./");
        reveal_strlit(".md)\n");
    }
    body.append("[");
    body.append(title.as_str());
    body.append("](./");
    push_pad3(body, i as u64);
    body.append(".md)\n");
    assert(final(body)@ =~= old(body)@ + index_line(i as nat, title@));
}

/// Builds the index from the first anchor of each link cell: cells without an
/// anchor are skipped, the others numbered from 0 in order. Fails with
/// `MissingHref` where an anchor has no `href`.
pub fn resolve_index(anchors: &Vec<Option<Element>>, base: &str) -> (r: Result<IndexPage, Failure>)
    ensures
        index_result_model(r) == resolve(anchors@.map_values(|a: Option<Element>| opt_element_model(a)), base@),
{
    let ghost model = anchors@.map_values(|a: Option<Element>| opt_element_model(a));
    let mut body = String::new();
    let mut links: Vec<ChapterLink> = Vec::new();
    let mut i: usize = 0;
    while i < anchors.len()
        invariant
            i <= anchors.len(),
            model == anchors@.map_values(|a: Option<Element>| opt_element_model(a)),
            !has_missing_href(model.take(i as int)),
            body@ == index_body(found_anchors(model.take(i as int))),
            links@.map_values(|l: ChapterLink| l@) == index_links(found_anchors(model.take(i as int)), base@),
            links.len() == found_anchors(model.take(i as int)).len(),
        decreases anchors.len() - i,
    {
        proof {
            model.lemma_filter_map_take_succ(|a: Option<ElementModel>| a, i as int);
        }
        let ghost before = found_anchors(model.take(i as int));
        let ghost old_links = links@;
        assert(model[i as int] == opt_element_model(anchors@[i as int]));
        match &anchors[i] {
            Some(a) => {
                match &a.attr {
                    Some(href) => {
                        let n = links.len();
                        push_index_line(&mut body, n, &a.text);
                        let mut url = String::from_str(base);
                        url.append(href.as_str());
                        links.push(ChapterLink { index: n, title: a.text.clone(), url });
                        proof {
                            let after = found_anchors(model.take(i + 1));
                            assert(after == before.push(a@));
                            assert(after.drop_last() =~= before);
                            let lm = links@.map_values(|l: ChapterLink| l@);
                            let want = index_links(after, base@);
                            assert(lm.len() == want.len());
                            assert forall|j: int| 0 <= j < lm.len() implies lm[j] == want[j] by {
                                if j < n {
                                    assert(links@[j] == old_links[j]);
                                    assert(after[j] == before[j]);
                                    assert(old_links.map_values(|l: ChapterLink| l@)[j] == index_links(before, base@)[j]);
                                } else {
                                    assert(after[j] == a@);
                                    assert(a@.2 == Some(href@));
                                    assert(lm[j] == links@[j]@);
                                }
                            }
                            assert(links@.map_values(|l: ChapterLink| l@) =~= index_links(after, base@));
                        }
                    },
                    None => {
                        assert(lacks_href(model[i as int]));
                        return Err(Failure::MissingHref);
                    },
                }
            },
            None => {
                assert(found_anchors(model.take(i + 1)) =~= before);
            },
        }
        proof {
            assert forall|j: int| 0 <= j < i + 1 implies !lacks_href(#[trigger] model.take(i + 1)[j]) by {
                if j < i {
                    assert(model.take(i as int)[j] == model.take(i + 1)[j]);
                }
            }
        }
        i = i + 1;
    }
    assert(model.take(i as int) =~= model);
    Ok(IndexPage { body, links })
}

/// The first anchor of a link cell with inner HTML `inner`: `None` where the
/// anchor selector does not parse, `Some(None)` where the cell has no anchor.
pub open spec fn cell_anchor(inner: Seq<char>) -> Option<Option<ElementModel>> {
    match fragment_selection(inner, ANCHOR_SELECTOR@, HREF@) {
        None => None,
        Some(s) => Some(if s.len() > 0 { Some(s[0]) } else { None }),
    }
}

/// The index of the page `html` whose chapter URLs are relative to `base`:
/// `MalformedIndex` where no link cell can be found.
pub open spec fn compose(html: Seq<char>, base: Seq<char>) -> Result<(Seq<char>, Seq<LinkModel>), Failure> {
    match document_selection(html, CELL_SELECTOR@, HREF@) {
        None => Err(Failure::MalformedIndex),
        Some(cells) => if cells.len() == 0 || exists|i: int| 0 <= i < cells.len() && (#[trigger] cell_anchor(cells[i].0)) is None {
            Err(Failure::MalformedIndex)
        } else {
            resolve(Seq::new(cells.len(), |i: int| cell_anchor(cells[i].0).unwrap()), base)
        },
    }
}

/// Reads the chapter list out of the index page `html`: the first anchor of
/// every link cell, in document order, each `href` appended to `base`.
/// Fails with `MalformedIndex` where the page has no link cell at all, or the
/// cells cannot be selected.
pub fn compose_index_page(html: &str, base: &str) -> (r: Result<IndexPage, Failure>)
    ensures
        index_result_model(r) == compose(html@, base@),
{
    let cells = match select_in_document(html, CELL_SELECTOR, HREF) {
        Some(c) => c,
        None => return Err(Failure::MalformedIndex),
    };
    if cells.len() == 0 {
        return Err(Failure::MalformedIndex);
    }
    let ghost cm = cells@.map_values(|e: Element| e@);
    let mut anchors: Vec<Option<Element>> = Vec::new();
    let mut i: usize = 0;
    while i < cells.len()
        invariant
            i <= cells.len(),
            cm == cells@.map_values(|e: Element| e@),
            document_selection(html@, CELL_SELECTOR@, HREF@) == Some(cm),
            anchors.len() == i,
            forall|j: int| 0 <= j < i ==> (#[trigger] cell_anchor(cm[j].0)) == Some(opt_element_model(anchors@[j])),
        decreases cells.len() - i,
    {
        let found = select_in_fragment(cells[i].inner_html.as_str(), ANCHOR_SELECTOR, HREF);
        assert(cm[i as int].0 == cells@[i as int].inner_html@);
        match found {
            Some(mut v) => {
                if v.len() > 0 {
                    let first = v.swap_remove(0);
                    anchors.push(Some(first));
                } else {
                    anchors.push(None);
                }
            },
            None => {
                assert(cell_anchor(cm[i as int].0) is None);
                return Err(Failure::MalformedIndex);
            },
        }
        i = i + 1;
    }
    let ghost am = anchors@.map_values(|a: Option<Element>| opt_element_model(a));
    assert(am =~= Seq::new(cm.len(), |k: int| cell_anchor(cm[k].0).unwrap()));
    resolve_index(&anchors, base)
}

/// The index page's file name, taken off its URL to give the base of the
/// chapter URLs.
pub const INDEX_FILE: &'static str = "index.htm";

/// The base of the chapter URLs of the index page at `url`.
pub open spec fn base_of(url: Seq<char>) -> Seq<char> {
    match without_suffix(url, INDEX_FILE@) {
        Some(b) => b,
        None => url,
    }
}

/// `url` without a trailing `index.htm`.
pub fn index_base(url: &str) -> (r: String)
    ensures
        r@ == base_of(url@),
{
    match str_strip_suffix(url, INDEX_FILE) {
        Some(b) => String::from_str(b),
        None => String::from_str(url),
    }
}

pub open spec fn opt_element_model(a: Option<Element>) -> Option<ElementModel> {
    match a {
        Some(e) => Some(e@),
        None => None,
    }
}

proof fn lemma_found_all(anchors: Seq<Option<ElementModel>>)
    requires
        forall|i: int| 0 <= i < anchors.len() ==> (#[trigger] anchors[i]) is Some,
    ensures
        found_anchors(anchors) =~= anchors.map_values(|a: Option<ElementModel>| a.unwrap()),
    decreases anchors.len(),
{
    if anchors.len() > 0 {
        lemma_found_all(anchors.drop_last());
    }
}

proof fn lemma_found_skips_none(anchors: Seq<Option<ElementModel>>, j: int)
    requires
        0 <= j <= anchors.len(),
    ensures
        found_anchors(anchors.insert(j, None)) == found_anchors(anchors),
    decreases anchors.len(),
{
    let with = anchors.insert(j, None);
    if j == anchors.len() {
        assert(with.drop_last() =~= anchors);
    } else {
        assert(with.drop_last() =~= anchors.drop_last().insert(j, None));
        assert(with.last() == anchors.last());
        lemma_found_skips_none(anchors.drop_last(), j);
    }
}

/// An index page whose every link cell holds an anchor with an `href` yields
/// one chapter per cell, numbered `0..K-1` in document order.
pub proof fn lemma_well_formed_cells_all_link(anchors: Seq<Option<ElementModel>>, base: Seq<char>)
    requires
        forall|i: int| 0 <= i < anchors.len() ==> (#[trigger] anchors[i] matches Some(a) && a.2 is Some),
    ensures
        resolve(anchors, base) is Ok,
        resolve(anchors, base)->Ok_0.1.len() == anchors.len(),
        forall|i: int| 0 <= i < anchors.len() ==> (#[trigger] resolve(anchors, base)->Ok_0.1[i]) == (
            i as nat,
            anchors[i]->Some_0.1,
            base + anchors[i]->Some_0.2->Some_0,
        ),
{
    assert forall|i: int| 0 <= i < anchors.len() implies (#[trigger] anchors[i]) is Some by {}
    assert(!has_missing_href(anchors));
    lemma_found_all(anchors);
}

/// A link cell without an anchor contributes nothing: inserting one anywhere
/// among the cells leaves the index unchanged.
pub proof fn lemma_cell_without_anchor_skipped(anchors: Seq<Option<ElementModel>>, j: int, base: Seq<char>)
    requires
        0 <= j <= anchors.len(),
    ensures
        resolve(anchors.insert(j, None), base) == resolve(anchors, base),
{
    let with = anchors.insert(j, None);
    lemma_found_skips_none(anchors, j);
    if has_missing_href(anchors) {
        let i = choose|i: int| 0 <= i < anchors.len() && lacks_href(#[trigger] anchors[i]);
        if i < j {
            assert(lacks_href(with[i]));
        } else {
            assert(lacks_href(with[i + 1]));
        }
    }
    if has_missing_href(with) {
        let i = choose|i: int| 0 <= i < with.len() && lacks_href(#[trigger] with[i]);
        if i < j {
            assert(lacks_href(anchors[i]));
        } else {
            assert(lacks_href(anchors[i - 1]));
        }
    }
}

} // verus!

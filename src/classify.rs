//! Telling text pages from image-gallery pages.
use vstd::prelude::*;
use crate::strings::{occurs_in, str_contains};

verus! {

/// The class of the images of a gallery page; its presence anywhere in a
/// page's text makes the page a gallery.
pub const GALLERY_MARKER: &'static str = "imagecontent";

#[derive(Debug, Clone, Copy, PartialEq, Eq, Structural)]
pub enum PageKind {
    Text,
    Gallery,
}

/// The kind of a page with raw text `html`.
pub open spec fn page_kind(html: Seq<char>) -> PageKind {
    if occurs_in(html, GALLERY_MARKER@) {
        PageKind::Gallery
    } else {
        PageKind::Text
    }
}

/// Classifies a fetched chapter page by the presence of the gallery marker.
pub fn classify(html: &str) -> (r: PageKind)
    ensures
        r == page_kind(html@),
{
    if str_contains(html, GALLERY_MARKER) {
        PageKind::Gallery
    } else {
        PageKind::Text
    }
}

/// Classification is a function of the page text alone, and puts every page
/// in exactly one of the two kinds.
pub proof fn lemma_classify_total(x: Seq<char>, y: Seq<char>)
    ensures
        x == y ==> page_kind(x) == page_kind(y),
        page_kind(x) is Text <==> !(page_kind(x) is Gallery),
        page_kind(x) is Gallery <==> occurs_in(x, GALLERY_MARKER@),
{
}

} // verus!

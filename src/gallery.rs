//! Image-gallery chapters: the ordered image list and the manifest of what
//! was saved.
use vstd::prelude::*;
use crate::error::Failure;
use crate::html::{document_selection, select_in_document, ElementModel};
use crate::numbering::{image_name, push_image_name};
use crate::strings::{str_strip_prefix, without_prefix};

verus! {

/// Selector of the images of a gallery page.
pub const IMAGE_SELECTOR: &'static str = "img[class=\"imagecontent\"]";

/// The attribute that holds an image's source URL.
pub const SRC: &'static str = "src";

/// The scheme prefix taken off an image URL before it is fetched.
pub const SECURE_SCHEME: &'static str = "https://";

/// One image of a gallery chapter.
pub struct ImageRef {
    /// Ordinal of the gallery chapter among all gallery chapters.
    pub gallery_id: usize,
    /// Position of the image on its page, from 0.
    pub image_index: usize,
    /// The image's source URL as the page gives it.
    pub source_url: String,
}

/// The source URLs of the images selected on a page, in document order,
/// leaving out images without one.
pub open spec fn source_urls(images: Seq<ElementModel>) -> Seq<Seq<char>> {
    images.filter_map(|e: ElementModel| e.2)
}

/// The image source URLs of the gallery page `html`.
pub open spec fn image_urls_of(html: Seq<char>) -> Result<Seq<Seq<char>>, Failure> {
    match document_selection(html, IMAGE_SELECTOR@, SRC@) {
        Some(images) => Ok(source_urls(images)),
        None => Err(Failure::GalleryMarkerInvalid),
    }
}

/// The form of an image URL handed to the fetcher: without a leading
/// `https://`.
pub open spec fn fetch_form(url: Seq<char>) -> Seq<char> {
    match without_prefix(url, SECURE_SCHEME@) {
        Some(rest) => rest,
        None => url,
    }
}

/// Ascending positions of the images that were saved.
pub open spec fn saved_indices(saved: Seq<bool>) -> Seq<nat>
    decreases saved.len(),
{
    if saved.len() == 0 {
        Seq::empty()
    } else if saved.last() {
        saved_indices(saved.drop_last()).push((saved.len() - 1) as nat)
    } else {
        saved_indices(saved.drop_last())
    }
}

/// The manifest line of image `n` of gallery `g`.
pub open spec fn manifest_line(g: nat, n: nat) -> Seq<char> {
    seq!['['] + image_name(g, n) + seq![']', '(', '.', '/'] + image_name(g, n) + seq![')', '<', 'b', 'r', '>', '\n']
}

/// The manifest lines of the images at positions `idx`, in that order.
pub open spec fn manifest_lines(g: nat, idx: Seq<nat>) -> Seq<char>
    decreases idx.len(),
{
    if idx.len() == 0 {
        Seq::empty()
    } else {
        manifest_lines(g, idx.drop_last()) + manifest_line(g, idx.last())
    }
}

/// The manifest of gallery `g` where `saved[n]` tells whether image `n` was
/// saved.
pub open spec fn manifest(g: nat, saved: Seq<bool>) -> Seq<char> {
    manifest_lines(g, saved_indices(saved))
}

pub open spec fn urls_result_model(r: Result<Vec<String>, Failure>) -> Result<Seq<Seq<char>>, Failure> {
    match r {
        Ok(v) => Ok(v@.map_values(|s: String| s@)),
        Err(e) => Err(e),
    }
}

impl ImageRef {
    /// The name of the file the image is saved as.
    pub fn file_name(&self) -> (r: String)
        ensures
            r@ == image_name(self.gallery_id as nat, self.image_index as nat),
    {
        crate::numbering::image_file_name(self.gallery_id, self.image_index)
    }

    /// The URL handed to the fetcher for this image.
    pub fn fetch_url(&self) -> (r: String)
        ensures
            r@ == fetch_form(self.source_url@),
    {
        fetch_url(self.source_url.as_str())
    }
}

/// `url` without a leading `https://`.
pub fn fetch_url(url: &str) -> (r: String)
    ensures
        r@ == fetch_form(url@),
{
    match str_strip_prefix(url, SECURE_SCHEME) {
        Some(rest) => String::from_str(rest),
        None => String::from_str(url),
    }
}

/// The source URLs of the gallery images of `html`, in document order;
/// `GalleryMarkerInvalid` where the image selector cannot be built.
pub fn get_pic_urls_on_page(html: &str) -> (r: Result<Vec<String>, Failure>)
    ensures
        urls_result_model(r) == image_urls_of(html@),
{
    let images = match select_in_document(html, IMAGE_SELECTOR, SRC) {
        Some(v) => v,
        None => return Err(Failure::GalleryMarkerInvalid),
    };
    let ghost im = images@.map_values(|e: crate::html::Element| e@);
    let mut urls: Vec<String> = Vec::new();
    let mut i: usize = 0;
    while i < images.len()
        invariant
            i <= images.len(),
            im == images@.map_values(|e: crate::html::Element| e@),
            urls@.map_values(|s: String| s@) == source_urls(im.take(i as int)),
        decreases images.len() - i,
    {
        proof {
            im.lemma_filter_map_take_succ(|e: ElementModel| e.2, i as int);
        }
        let ghost before = urls@;
        assert(im[i as int] == images@[i as int]@);
        match &images[i].attr {
            Some(src) => {
                urls.push(src.clone());
                assert(urls@.map_values(|s: String| s@) =~= before.map_values(|s: String| s@).push(src@));
            },
            None => {},
        }
        i = i + 1;
    }
    assert(im.take(i as int) =~= im);
    Ok(urls)
}

/// The images of gallery `gallery_id` whose source URLs are `urls`, numbered
/// from 0 in order.
pub fn image_refs(gallery_id: usize, urls: &Vec<String>) -> (r: Vec<ImageRef>)
    ensures
        r@.len() == urls@.len(),
        forall|i: int| 0 <= i < r@.len() ==> (#[trigger] r@[i]).gallery_id == gallery_id && r@[i].image_index == i
            && r@[i].source_url@ == urls@[i]@,
{
    let mut r: Vec<ImageRef> = Vec::new();
    let mut i: usize = 0;
    while i < urls.len()
        invariant
            i <= urls@.len(),
            r@.len() == i,
            forall|j: int| 0 <= j < i ==> (#[trigger] r@[j]).gallery_id == gallery_id && r@[j].image_index == j
                && r@[j].source_url@ == urls@[j]@,
        decreases urls@.len() - i,
    {
        r.push(ImageRef { gallery_id, image_index: i, source_url: urls[i].clone() });
        i = i + 1;
    }
    r
}

/// Appends the manifest line of image `n` of gallery `g` to `out`.
fn push_manifest_line(out: &mut String, g: usize, n: usize)
    ensures
        final(out)@ == old(out)@ + manifest_line(g as nat, n as nat),
{
    proof {
        reveal_strlit("[");
        reveal_strlit("](./");
        reveal_strlit(")<br>\n");
    }
    out.append("[");
    push_image_name(out, g, n);
    out.append("](./");
    push_image_name(out, g, n);
    out.append(")<br>\n");
    assert(final(out)@ =~= old(out)@ + manifest_line(g as nat, n as nat));
}

/// The manifest of gallery `gallery_id`: one line per saved image, where
/// `saved[n]` tells whether image `n` was saved, in ascending order.
pub fn render_manifest(gallery_id: usize, saved: &Vec<bool>) -> (r: String)
    ensures
        r@ == manifest(gallery_id as nat, saved@),
{
    let mut r = String::new();
    let mut n: usize = 0;
    while n < saved.len()
        invariant
            n <= saved.len(),
            r@ == manifest(gallery_id as nat, saved@.take(n as int)),
        decreases saved.len() - n,
    {
        let ghost t = saved@.take(n + 1);
        assert(t.drop_last() =~= saved@.take(n as int));
        assert(t.last() == saved@[n as int]);
        if saved[n] {
            push_manifest_line(&mut r, gallery_id, n);
            let ghost idx = saved_indices(t);
            assert(idx == saved_indices(saved@.take(n as int)).push(n as nat));
            assert(idx.drop_last() =~= saved_indices(saved@.take(n as int)));
        }
        n = n + 1;
    }
    assert(saved@.take(n as int) =~= saved@);
    r
}

/// The positions of the saved images, ascending, holding each saved position
/// and no other.
pub proof fn lemma_saved_indices(saved: Seq<bool>)
    ensures
        forall|a: int, b: int| 0 <= a < b < saved_indices(saved).len() ==> saved_indices(saved)[a] < saved_indices(saved)[b],
        forall|k: int| 0 <= k < saved_indices(saved).len() ==> saved_indices(saved)[k] < saved.len() && saved[saved_indices(saved)[k] as int],
        forall|n: int| 0 <= n < saved.len() && saved[n] ==> saved_indices(saved).contains(n as nat),
    decreases saved.len(),
{
    if saved.len() > 0 {
        let rest = saved.drop_last();
        lemma_saved_indices(rest);
        let ri = saved_indices(rest);
        assert forall|n: int| 0 <= n < saved.len() && saved[n] implies saved_indices(saved).contains(n as nat) by {
            if n < rest.len() {
                assert(rest[n] == saved[n]);
                let k = choose|k: int| 0 <= k < ri.len() && ri[k] == n as nat;
                assert(saved_indices(saved)[k] == n as nat);
            } else {
                assert(saved_indices(saved).last() == n as nat);
            }
        }
        assert forall|k: int| 0 <= k < saved_indices(saved).len() implies saved_indices(saved)[k] < saved.len() && saved[saved_indices(saved)[k] as int] by {
            if k < ri.len() {
                assert(rest[ri[k] as int] == saved[ri[k] as int]);
            }
        }
    }
}

/// The manifest of a gallery lists exactly the saved images, each once, in
/// ascending image order, with no line for an image that failed: line `k`
/// names the `k`-th saved image.
pub proof fn lemma_manifest_compacted(g: nat, saved: Seq<bool>)
    ensures
        manifest(g, saved) == manifest_lines(g, saved_indices(saved)),
        forall|a: int, b: int| 0 <= a < b < saved_indices(saved).len() ==> saved_indices(saved)[a] < saved_indices(saved)[b],
        forall|k: int| 0 <= k < saved_indices(saved).len() ==> saved[saved_indices(saved)[k] as int],
        forall|n: int| 0 <= n < saved.len() ==> (saved[n] <==> saved_indices(saved).contains(n as nat)),
{
    lemma_saved_indices(saved);
}

} // verus!

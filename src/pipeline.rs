//! The per-chapter state machine of a run, and the numbering of gallery
//! chapters.
//!
//! Gallery ordinals are given by a pass over the classified chapters in
//! chapter order, so that they do not depend on the order in which concurrent
//! work completes and a second run numbers the galleries the same way.
use vstd::prelude::*;
use crate::classify::{page_kind, PageKind};
use crate::error::Failure;
use crate::gallery::{manifest, render_manifest};
use crate::text_page::{page_text_of, process_text_page, text_document, text_result_model};

verus! {

/// A non-terminal stage of a chapter.
#[derive(Debug, Clone, Copy, PartialEq, Eq, Structural)]
pub enum Stage {
    Pending,
    Fetched,
    Classified,
    Rendered,
}

/// Where one chapter stands in a run.
#[derive(Debug, Clone, Copy, PartialEq, Eq, Structural)]
pub enum ChapterState {
    Pending,
    Fetched,
    Classified,
    Rendered,
    Written,
    Failed { at: Stage, cause: Failure },
}

/// What happened to a chapter's unit of work at its current stage.
#[derive(Debug, Clone, Copy, PartialEq, Eq, Structural)]
pub enum Event {
    /// The stage's work succeeded.
    Advanced,
    /// The stage's work failed.
    Failed(Failure),
}

pub open spec fn is_terminal(s: ChapterState) -> bool {
    s is Written || s is Failed
}

/// The state after `e` in state `s`: terminal states never change; success
/// moves one stage on; failure records the stage and the cause.
pub open spec fn next_state(s: ChapterState, e: Event) -> ChapterState {
    match s {
        ChapterState::Written => s,
        ChapterState::Failed { .. } => s,
        ChapterState::Pending => match e {
            Event::Advanced => ChapterState::Fetched,
            Event::Failed(c) => ChapterState::Failed { at: Stage::Pending, cause: c },
        },
        ChapterState::Fetched => match e {
            Event::Advanced => ChapterState::Classified,
            Event::Failed(c) => ChapterState::Failed { at: Stage::Fetched, cause: c },
        },
        ChapterState::Classified => match e {
            Event::Advanced => ChapterState::Rendered,
            Event::Failed(c) => ChapterState::Failed { at: Stage::Classified, cause: c },
        },
        ChapterState::Rendered => match e {
            Event::Advanced => ChapterState::Written,
            Event::Failed(c) => ChapterState::Failed { at: Stage::Rendered, cause: c },
        },
    }
}

impl ChapterState {
    pub fn is_terminal(self) -> (r: bool)
        ensures
            r == is_terminal(self),
    {
        match self {
            ChapterState::Written | ChapterState::Failed { .. } => true,
            _ => false,
        }
    }

    /// The state after `e`.
    pub fn step(self, e: Event) -> (r: ChapterState)
        ensures
            r == next_state(self, e),
    {
        match self {
            ChapterState::Written | ChapterState::Failed { .. } => self,
            ChapterState::Pending => match e {
                Event::Advanced => ChapterState::Fetched,
                Event::Failed(c) => ChapterState::Failed { at: Stage::Pending, cause: c },
            },
            ChapterState::Fetched => match e {
                Event::Advanced => ChapterState::Classified,
                Event::Failed(c) => ChapterState::Failed { at: Stage::Fetched, cause: c },
            },
            ChapterState::Classified => match e {
                Event::Advanced => ChapterState::Rendered,
                Event::Failed(c) => ChapterState::Failed { at: Stage::Classified, cause: c },
            },
            ChapterState::Rendered => match e {
                Event::Advanced => ChapterState::Written,
                Event::Failed(c) => ChapterState::Failed { at: Stage::Rendered, cause: c },
            },
        }
    }
}

/// Number of chapters in `s` that were written.
pub open spec fn count_written(s: Seq<ChapterState>) -> nat
    decreases s.len(),
{
    if s.len() == 0 {
        0
    } else {
        count_written(s.drop_last()) + if s.last() is Written { 1nat } else { 0nat }
    }
}

/// Number of chapters in `s` that failed.
pub open spec fn count_failed(s: Seq<ChapterState>) -> nat
    decreases s.len(),
{
    if s.len() == 0 {
        0
    } else {
        count_failed(s.drop_last()) + if s.last() is Failed { 1nat } else { 0nat }
    }
}

/// The progress of every chapter of a run.
pub struct Run {
    pub states: Vec<ChapterState>,
}

impl Run {
    /// A run over `n` chapters, all pending.
    pub fn new(n: usize) -> (r: Run)
        ensures
            r.states@.len() == n,
            forall|i: int| 0 <= i < n ==> r.states@[i] == ChapterState::Pending,
    {
        let mut states: Vec<ChapterState> = Vec::new();
        let mut i: usize = 0;
        while i < n
            invariant
                i <= n,
                states@.len() == i,
                forall|j: int| 0 <= j < i ==> states@[j] == ChapterState::Pending,
            decreases n - i,
        {
            states.push(ChapterState::Pending);
            i = i + 1;
        }
        Run { states }
    }

    /// Records event `e` of chapter `chapter`; no other chapter changes.
    pub fn record(&mut self, chapter: usize, e: Event)
        requires
            chapter < old(self).states@.len(),
        ensures
            final(self).states@ == old(self).states@.update(chapter as int, next_state(old(self).states@[chapter as int], e)),
    {
        let s = self.states[chapter].step(e);
        self.states.set(chapter, s);
    }

    /// Whether every chapter has reached `Written` or `Failed`.
    pub fn is_complete(&self) -> (r: bool)
        ensures
            r == forall|i: int| 0 <= i < self.states@.len() ==> is_terminal(#[trigger] self.states@[i]),
    {
        let mut i: usize = 0;
        while i < self.states.len()
            invariant
                i <= self.states@.len(),
                forall|j: int| 0 <= j < i ==> is_terminal(#[trigger] self.states@[j]),
            decreases self.states@.len() - i,
        {
            if !self.states[i].is_terminal() {
                return false;
            }
            i = i + 1;
        }
        true
    }

    /// Number of chapters written.
    pub fn written_count(&self) -> (r: usize)
        ensures
            r == count_written(self.states@),
    {
        let mut n: usize = 0;
        let mut i: usize = 0;
        while i < self.states.len()
            invariant
                i <= self.states@.len(),
                n == count_written(self.states@.take(i as int)),
                n <= i,
            decreases self.states@.len() - i,
        {
            assert(self.states@.take(i + 1).drop_last() =~= self.states@.take(i as int));
            if matches!(self.states[i], ChapterState::Written) {
                n = n + 1;
            }
            i = i + 1;
        }
        assert(self.states@.take(i as int) =~= self.states@);
        n
    }

    /// Number of chapters that failed.
    pub fn failed_count(&self) -> (r: usize)
        ensures
            r == count_failed(self.states@),
    {
        let mut n: usize = 0;
        let mut i: usize = 0;
        while i < self.states.len()
            invariant
                i <= self.states@.len(),
                n == count_failed(self.states@.take(i as int)),
                n <= i,
            decreases self.states@.len() - i,
        {
            assert(self.states@.take(i + 1).drop_last() =~= self.states@.take(i as int));
            if matches!(self.states[i], ChapterState::Failed { .. }) {
                n = n + 1;
            }
            i = i + 1;
        }
        assert(self.states@.take(i as int) =~= self.states@);
        n
    }
}

/// Once every chapter is terminal, the chapters written are all chapters but
/// those that failed.
pub proof fn lemma_complete_run_counts(s: Seq<ChapterState>)
    requires
        forall|i: int| 0 <= i < s.len() ==> is_terminal(#[trigger] s[i]),
    ensures
        count_written(s) + count_failed(s) == s.len(),
    decreases s.len(),
{
    if s.len() > 0 {
        let r = s.drop_last();
        assert forall|i: int| 0 <= i < r.len() implies is_terminal(#[trigger] r[i]) by {
            assert(r[i] == s[i]);
        }
        lemma_complete_run_counts(r);
        assert(is_terminal(s[s.len() - 1]));
    }
}

/// A failure of one chapter leaves every other chapter's state as it was,
/// and an event on a finished chapter changes nothing.
pub proof fn lemma_failure_isolated(s: Seq<ChapterState>, c: int, f: Failure, j: int)
    requires
        0 <= c < s.len(),
        0 <= j < s.len(),
    ensures
        j != c ==> s.update(c, next_state(s[c], Event::Failed(f)))[j] == s[j],
        is_terminal(s[c]) ==> next_state(s[c], Event::Failed(f)) == s[c],
        !is_terminal(s[c]) ==> next_state(s[c], Event::Failed(f)) is Failed,
{
}

/// Number of gallery chapters among `kinds`.
pub open spec fn gallery_count(kinds: Seq<PageKind>) -> nat
    decreases kinds.len(),
{
    if kinds.len() == 0 {
        0
    } else {
        gallery_count(kinds.drop_last()) + if kinds.last() is Gallery { 1nat } else { 0nat }
    }
}

/// The gallery ordinal of each chapter: for a gallery chapter, the number of
/// gallery chapters before it.
pub open spec fn gallery_ids(kinds: Seq<PageKind>) -> Seq<Option<nat>> {
    Seq::new(kinds.len(), |i: int| if kinds[i] is Gallery { Some(gallery_count(kinds.take(i))) } else { None })
}

pub open spec fn opt_usize_model(o: Option<usize>) -> Option<nat> {
    match o {
        Some(n) => Some(n as nat),
        None => None,
    }
}

/// Gives each gallery chapter its ordinal among gallery chapters, in chapter
/// order; text chapters get none.
pub fn plan_gallery_ids(kinds: &Vec<PageKind>) -> (r: Vec<Option<usize>>)
    ensures
        r@.map_values(|o: Option<usize>| opt_usize_model(o)) == gallery_ids(kinds@),
{
    let mut r: Vec<Option<usize>> = Vec::new();
    let mut next: usize = 0;
    let mut i: usize = 0;
    while i < kinds.len()
        invariant
            i <= kinds@.len(),
            next == gallery_count(kinds@.take(i as int)),
            next <= i,
            r@.len() == i,
            forall|j: int| 0 <= j < i ==> opt_usize_model(#[trigger] r@[j]) == gallery_ids(kinds@)[j],
        decreases kinds@.len() - i,
    {
        assert(kinds@.take(i + 1).drop_last() =~= kinds@.take(i as int));
        if matches!(kinds[i], PageKind::Gallery) {
            r.push(Some(next));
            next = next + 1;
        } else {
            r.push(None);
        }
        i = i + 1;
    }
    assert(r@.map_values(|o: Option<usize>| opt_usize_model(o)) =~= gallery_ids(kinds@));
    r
}

proof fn lemma_gallery_count_grows(kinds: Seq<PageKind>, i: int, j: int)
    requires
        0 <= i <= j <= kinds.len(),
    ensures
        gallery_count(kinds.take(i)) <= gallery_count(kinds.take(j)),
        i < j && kinds[i] is Gallery ==> gallery_count(kinds.take(i)) < gallery_count(kinds.take(j)),
    decreases j - i,
{
    if i < j {
        lemma_gallery_count_grows(kinds, i, j - 1);
        assert(kinds.take(j).drop_last() =~= kinds.take(j - 1));
        if j - 1 == i {
            assert(kinds.take(j).last() == kinds[i]);
        }
    }
}

/// Distinct gallery chapters get distinct ordinals, increasing with the
/// chapter index, and the ordinals are exactly `0..G-1` for `G` galleries.
pub proof fn lemma_gallery_ids_distinct(kinds: Seq<PageKind>, i: int, j: int)
    requires
        0 <= i < j < kinds.len(),
        kinds[i] is Gallery,
        kinds[j] is Gallery,
    ensures
        gallery_ids(kinds)[i] is Some,
        gallery_ids(kinds)[j] is Some,
        gallery_ids(kinds)[i]->Some_0 < gallery_ids(kinds)[j]->Some_0,
        gallery_ids(kinds)[j]->Some_0 < gallery_count(kinds),
{
    lemma_gallery_count_grows(kinds, i, j);
    lemma_gallery_count_grows(kinds, j, kinds.len() as int);
    assert(kinds.take(kinds.len() as int) =~= kinds);
}

/// The output document of chapter `i` with page text `page`: the manifest of
/// its saved images for a gallery chapter, else the rendered text page.
pub open spec fn chapter_document(page: Seq<char>, i: nat, gallery_id: Option<nat>, saved: Seq<bool>) -> Result<Seq<char>, Failure> {
    match gallery_id {
        Some(g) => Ok(manifest(g, saved)),
        None => match page_text_of(page) {
            Ok(c) => Ok(text_document(c, i)),
            Err(e) => Err(e),
        },
    }
}

/// The output document of chapter `index`, fetched as `html`; `gallery_id` is
/// its gallery ordinal if it is a gallery chapter, and `saved[n]` tells
/// whether its image `n` was saved.
pub fn render_chapter(html: &str, index: usize, gallery_id: Option<usize>, saved: &Vec<bool>) -> (r: Result<String, Failure>)
    requires
        index < usize::MAX,
    ensures
        text_result_model(r) == chapter_document(html@, index as nat, opt_usize_model(gallery_id), saved@),
{
    match gallery_id {
        Some(g) => Ok(render_manifest(g, saved)),
        None => process_text_page(html, index),
    }
}

/// The kinds of the pages `pages`.
pub open spec fn kinds_of(pages: Seq<Seq<char>>) -> Seq<PageKind> {
    pages.map_values(|p: Seq<char>| page_kind(p))
}

/// The document of chapter `i` of a run over the pages `pages`.
pub open spec fn run_document(pages: Seq<Seq<char>>, saved: Seq<Seq<bool>>, i: int) -> Result<Seq<char>, Failure> {
    chapter_document(pages[i], i as nat, gallery_ids(kinds_of(pages))[i], saved[i])
}

/// The document of a chapter depends only on its own page, the kinds of the
/// chapters before it and its own saved images: neither later chapters, nor
/// what became of other chapters' work, nor the order in which work
/// completed changes it, and a second run on the same input renders the same
/// text.
pub proof fn lemma_chapter_document_reproducible(
    pages1: Seq<Seq<char>>,
    saved1: Seq<Seq<bool>>,
    pages2: Seq<Seq<char>>,
    saved2: Seq<Seq<bool>>,
    i: int,
)
    requires
        0 <= i < pages1.len(),
        i < pages2.len(),
        i < saved1.len(),
        i < saved2.len(),
        pages1[i] == pages2[i],
        saved1[i] == saved2[i],
        forall|j: int| 0 <= j < i ==> page_kind(#[trigger] pages1[j]) == page_kind(pages2[j]),
    ensures
        run_document(pages1, saved1, i) == run_document(pages2, saved2, i),
{
    let k1 = kinds_of(pages1);
    let k2 = kinds_of(pages2);
    assert(k1.take(i) =~= k2.take(i));
    assert(k1[i] == k2[i]);
}

} // verus!

//! Failure kinds of the pipeline, each tagged as fatal to the run or local to
//! one chapter or image.
use vstd::prelude::*;

verus! {

#[derive(Debug, Clone, Copy, PartialEq, Eq, Structural)]
pub enum Failure {
    /// The chapter list cannot be read out of the index page.
    MalformedIndex,
    /// A link cell holds an anchor without an `href` attribute.
    MissingHref,
    /// A text page lacks its text container.
    ContentNotFound,
    /// The gallery-image selector cannot be built.
    GalleryMarkerInvalid,
    /// A page or an image could not be fetched.
    NetworkError,
    /// An output file could not be written.
    WriteFailure,
}

impl Failure {
    /// Whether the failure ends the whole run, rather than one chapter or image.
    pub open spec fn spec_is_fatal(&self) -> bool {
        self is MalformedIndex || self is MissingHref
    }

    #[verifier::when_used_as_spec(spec_is_fatal)]
    pub fn is_fatal(&self) -> (r: bool)
        ensures
            r == self.spec_is_fatal(),
    {
        match self {
            Failure::MalformedIndex | Failure::MissingHref => true,
            _ => false,
        }
    }
}

} // verus!

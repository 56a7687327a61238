//! Harvest a paginated chapter index into a local, cross-linked document set.
//!
//! The library holds the decisions of the pipeline: reading the chapter list
//! out of an index page, telling text pages from image galleries, rendering
//! each output document, naming each output file, and tracking the progress
//! of every chapter. Fetching and writing are left to the caller.
pub mod classify;
pub mod error;
pub mod gallery;
pub mod html;
pub mod index;
pub mod numbering;
pub mod pipeline;
pub mod strings;
pub mod text_page;

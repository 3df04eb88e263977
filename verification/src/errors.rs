//! The library's error values.

use vstd::prelude::*;

verus! {

/// A failure described by its message.
#[derive(Debug)]
pub struct Report {
    pub message: String,
}

/// The errors of a run, by the part of the program that failed.
#[derive(Debug)]
pub enum RunErrors {
    Config(Report),
    Gatherers(crate::gatherers::GathererErrors),
    Http(Report),
    Downloader(Report),
}

} // verus!

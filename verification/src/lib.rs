//! Content gathering for subscription sites: the verified core.
//!
//! The modules hold the pure logic of the gatherers: cookie parsing, download
//! paths and byte ranges, the planning of gatherer runs, the conversion of
//! site responses into gatherer media, and the command line's small parsers.

pub mod text;
pub mod errors;
pub mod cookies;
pub mod paths;
pub mod gatherers;
pub mod downloaders;
pub mod fansly;
pub mod onlyfans;
pub mod json;
pub mod cli;
pub mod directories;
pub mod logging;

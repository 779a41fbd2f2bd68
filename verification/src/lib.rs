//! Verified core of a Markdown notes vault: wikilinks, invisible-character
//! detection, revision naming, appearance validation and CLI helpers.

pub mod text;
pub mod sanitize;
pub mod cmark;
pub mod link_index;
pub mod error;
pub mod cli;
pub mod config;
pub mod appearance;
pub mod pattern;
pub mod paths;
pub mod revision;
pub mod status;
pub mod markdown;
pub mod search;
pub mod vault;
pub mod backlinks;
pub mod describe;
pub mod report;
pub mod revision_diff;
pub mod responses;

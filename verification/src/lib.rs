//! Compares a local flattened smart-contract source against the canonical
//! verified source published on a block explorer. The core here is the
//! remapping-translation and source-resolution pipeline: parsing legacy
//! `alias=org/repo@version` remapping entries, translating them into
//! alias/path pairs rooted under the user's dependency cache, selecting the
//! remapping convention from a config file path, and rendering a stable
//! textual diff of two sources.

pub mod chain;
pub mod config;
pub mod errors;
pub mod remapping;
pub mod selector;
pub mod showdiff;
pub mod strutil;

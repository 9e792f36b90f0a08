//! A document pipeline: routes files to text extractors by extension, turns
//! extracted text into insights parsed from a language model's reply, and
//! memoises results in a bounded least-recently-used cache.

pub mod cache;
pub mod composer;
pub mod error;
pub mod extract;
pub mod formats;
pub mod insights;
pub mod processor;
pub mod json;
pub mod text;

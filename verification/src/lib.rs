//! Selection-and-normalization pipeline for packing a repository's text files
//! into one framed output stream.
//!
//! The library walks no directories and opens no files itself: it receives
//! file candidates as plain values, decides which of them to include (output
//! self-exclusion, timestamp guard, repository ignore status, glob ignore
//! rules, binary sniffing), normalizes the content of the included ones by an
//! extension-derived whitespace policy, and renders the framed output.

pub mod chars;
pub mod ext;
pub mod globs;
pub mod lines;
pub mod matcher;
pub mod normalize;
pub mod pipeline;
pub mod sniff;

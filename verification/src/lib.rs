//! Verified core of a comic-archive organizer.
//!
//! The library classifies comic filenames into a structured identity,
//! resolves a canonical publication year per series, decides which archive
//! entries are watermark pages, repairs the page-count field of the embedded
//! metadata document, and computes the canonical destination layout
//! `"<year> - <series>"/<issue>.<ext>`. All file, process and network work
//! stays outside, in the application shell.

pub mod classify;
pub mod download;
pub mod registry;
pub mod sorter;
pub mod text;
pub mod watermark;

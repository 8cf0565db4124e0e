//! Build a prefilled "new issue" URL for the project's tracker.
//!
//! The library resolves an issue title from free-form command-line
//! text, assembles the title and a set of optional descriptive fields
//! into a report, and encodes the report into a single URL whose
//! `title` and `body` query values are percent-encoded so that
//! decoding them recovers the original text exactly.

pub mod args;
pub mod percent;
pub mod report;
pub mod title;
pub mod url;

//! Sweeps marker-flagged comments out of source files.
//!
//! A comment is flagged by the marker token `U+203C U+FE0F`. The library
//! has two parts. [`selector`] judges the entries of a walk over a working
//! tree: ignore rules first, then exclude patterns, then include patterns.
//! [`cleaner`] takes the flagged comments out of a text, line by line, by
//! the comment syntax that [`language`] gives for the file's extension.
//! [`content`] goes from a file's bytes to the decision whether the file
//! is rewritten, and [`idempotence`] says when a second run over a file
//! finds nothing left to do.
//!
//! Walking the tree, asking the ignore rules, and reading and writing
//! files are left to the caller.

pub mod cleaner;
pub mod content;
pub mod failure;
pub mod idempotence;
pub mod language;
pub mod lines;
pub mod pattern;
pub mod selector;
pub mod text;

//! A pattern-search combinator engine.
//!
//! A *pattern* describes what to look for in an immutable byte buffer (the
//! *haystack*); turning a pattern into a *searcher* yields a stateful cursor
//! that emits a lazy sequence of steps classifying non-overlapping spans of
//! the haystack as matched or rejected, covering the buffer from start to
//! end.  Combinators compose simple patterns (literal text, character
//! classes, stateful character scanners) into richer ones: sequencing,
//! alternation, negation, conjunction, bounded repetition and counting
//! limits, all while preserving the step protocol stated in [`search`].

pub mod search;

pub mod utils;

pub mod base;

pub mod adapters;

pub mod logic;

//! Base searchers: the leaf producers of steps.

pub mod chars;

pub mod literal;

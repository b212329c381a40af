//! Small utilities shared by the combinators.

pub mod range;

pub use range::Range;

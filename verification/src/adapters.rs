//! Structural and quantitative combinators: wrappers that reshape, count
//! or recombine the steps of an underlying searcher.

pub mod fused;

pub mod greedy_reject;

pub mod indexed;

pub mod internal;

pub mod limit;

pub mod limited;

pub mod min;

pub mod peekable;

pub mod repeat;

pub mod simplify;

pub mod skip;

pub mod stateful;

pub mod then_seq;

use vstd::prelude::*;

use crate::search::{Pattern, Searcher};

pub use fused::{FusedPattern, FusedSearcher};
pub use greedy_reject::{SimplifyingPattern, SimplifyingSearcher};
pub use indexed::{IndexedPattern, IndexedSearcher};
pub use internal::InternalSearcher;
pub use limit::{LimitPattern, LimitSearcher};
pub use limited::{LimitedPattern, LimitedSearcher};
pub use min::{MinPattern, MinSearcher};
pub use peekable::{PeekablePattern, PeekableSearcher};
pub use repeat::{RepeatPattern, RepeatSearcher};
pub use skip::{SkipPattern, SkipSearcher};
pub use stateful::{CharCond, CharPattern, CharSearcher};
pub use then_seq::{ThenPattern, ThenSearcher};

verus! {

/// Combinator sugar on patterns: each method wraps `self` in the
/// corresponding adapter pattern.
pub trait PatternExt<'a>: Pattern<'a> {
    /// A pattern whose searcher is fused: `Done` forever after `Done`.
    fn fused(self) -> (r: FusedPattern<Self>)
        ensures
            r.spec_pattern() == self,
    ;

    /// A pattern whose searcher tracks the cursor.
    fn indexed(self) -> (r: IndexedPattern<Self>)
        ensures
            r.spec_pattern() == self,
    ;

    /// Limits the pattern to match at most `max` times.
    fn limit(self, max: usize) -> (r: LimitPattern<Self>)
        ensures
            r.spec_pattern() == self,
            r.spec_n() == max,
    ;

    /// A pattern whose searcher can look one step ahead.
    fn peekable(self) -> (r: PeekablePattern<Self>)
        ensures
            r.spec_pattern() == self,
    ;

    /// A pattern whose searcher merges runs of rejects.
    fn simplify(self) -> (r: SimplifyingPattern<Self>)
        ensures
            r.spec_pattern() == self,
    ;

    /// Suppresses the pattern's first `n` matches.
    fn skip(self, n: usize) -> (r: SkipPattern<Self>)
        ensures
            r.spec_pattern() == self,
            r.spec_n() == n,
    ;

    /// Repeats the pattern between `min` and `max` consecutive times.
    fn repeat(self, min: usize, max: usize) -> (r: RepeatPattern<Self>)
        ensures
            r.spec_pattern() == self,
            r.spec_min() == min,
            r.spec_max() == max,
    ;
}

impl<'a, Q: Pattern<'a>> PatternExt<'a> for Q {
    fn fused(self) -> (r: FusedPattern<Self>) {
        FusedPattern::new(self)
    }

    fn indexed(self) -> (r: IndexedPattern<Self>) {
        IndexedPattern::new(self)
    }

    fn limit(self, max: usize) -> (r: LimitPattern<Self>) {
        LimitPattern::new(self, max)
    }

    fn peekable(self) -> (r: PeekablePattern<Self>) {
        PeekablePattern::new(self)
    }

    fn simplify(self) -> (r: SimplifyingPattern<Self>) {
        SimplifyingPattern::new(self)
    }

    fn skip(self, n: usize) -> (r: SkipPattern<Self>) {
        SkipPattern::new(self, n)
    }

    fn repeat(self, min: usize, max: usize) -> (r: RepeatPattern<Self>) {
        RepeatPattern::new(self, min, max)
    }
}

/// Combinator sugar on searchers: each method wraps `self` in the
/// corresponding adapter searcher.
pub trait SearcherExt: Searcher {
    /// A searcher that always returns `Done` after `Done` has been
    /// returned once.
    fn fused(self) -> (r: FusedSearcher<Self>)
        requires
            self.wf(),
        ensures
            r.wf(),
            r.pos() == self.pos(),
            r.hay() == self.hay(),
            !r.spec_exhausted(),
    ;

    /// A searcher that tracks the cursor; it must not have emitted a
    /// span yet.
    fn indexed(self) -> (r: IndexedSearcher<Self>)
        requires
            self.wf(),
            self.pos() == 0,
        ensures
            r.wf(),
            r.pos() == 0,
            r.hay() == self.hay(),
    ;

    /// Limits the searcher to at most `max` further matches.
    fn limit(self, max: usize) -> (r: LimitSearcher<Self>)
        requires
            self.wf(),
        ensures
            r.wf(),
            r.pos() == self.pos(),
            r.hay() == self.hay(),
            r.spec_remaining() == max,
    ;

    /// A searcher with one-step lookahead.
    fn peekable(self) -> (r: PeekableSearcher<Self>)
        requires
            self.wf(),
        ensures
            r.wf(),
            r.pos() == self.pos(),
            r.hay() == self.hay(),
            r.spec_peeked() is None,
    ;

    /// A searcher that merges runs of rejects.
    fn simplify(self) -> (r: SimplifyingSearcher<Self>)
        requires
            self.wf(),
        ensures
            r.wf(),
            r.pos() == 0,
            r.hay() == self.hay(),
    ;

    /// Suppresses the searcher's next `n` matches.
    fn skip(self, n: usize) -> (r: SkipSearcher<Self>)
        requires
            self.wf(),
        ensures
            r.wf(),
            r.pos() == self.pos(),
            r.hay() == self.hay(),
            r.spec_n() == n,
    ;
}

impl<S: Searcher> SearcherExt for S {
    fn fused(self) -> (r: FusedSearcher<Self>) {
        FusedSearcher::new(self)
    }

    fn indexed(self) -> (r: IndexedSearcher<Self>) {
        IndexedSearcher::new(self)
    }

    fn limit(self, max: usize) -> (r: LimitSearcher<Self>) {
        LimitSearcher::new(self, max)
    }

    fn peekable(self) -> (r: PeekableSearcher<Self>) {
        PeekableSearcher::new(self)
    }

    fn simplify(self) -> (r: SimplifyingSearcher<Self>) {
        SimplifyingSearcher::new(self)
    }

    fn skip(self, n: usize) -> (r: SkipSearcher<Self>) {
        SkipSearcher::new(self, n)
    }
}

} // verus!

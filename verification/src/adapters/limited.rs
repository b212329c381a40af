//! A match-count cap that, once exceeded, gives up on the rest of the
//! haystack: the first excess match and everything after it are merged
//! into one final reject.

use vstd::prelude::*;

use crate::adapters::fused::FusedSearcher;
use crate::adapters::indexed::IndexedSearcher;
use crate::search::{Pattern, SearchStep, Searcher};

verus! {

/// A pattern whose searcher reports at most `remaining` matches and
/// rejects the whole remainder once the budget is spent.
#[derive(Debug)]
pub struct LimitedPattern<P> {
    pattern: P,
    remaining: usize,
}

impl<P> LimitedPattern<P> {
    /// The wrapped pattern.
    pub closed spec fn spec_pattern(self) -> P {
        self.pattern
    }

    /// How many matches are let through.
    pub closed spec fn spec_remaining(self) -> nat {
        self.remaining as nat
    }

    /// Wraps `pattern`, reporting at most `remaining` matches.
    pub fn new(pattern: P, remaining: usize) -> (r: Self)
        ensures
            r.spec_pattern() == pattern,
            r.spec_remaining() == remaining,
    {
        LimitedPattern { pattern, remaining }
    }
}

impl<'a, P: Pattern<'a>> Pattern<'a> for LimitedPattern<P> {
    type Searcher = LimitedSearcher<P::Searcher>;

    fn into_searcher(self, haystack: &'a [u8]) -> (s: Self::Searcher)
        ensures
            s.spec_remaining() == self.spec_remaining(),
            !s.spec_searcher().spec_exhausted(),
            s.spec_searcher().spec_searcher().spec_searcher().wf(),
            s.spec_searcher().spec_searcher().spec_searcher().pos() == 0,
            s.spec_searcher().spec_searcher().spec_searcher().hay() == haystack@,
    {
        LimitedSearcher::new(self.pattern.into_searcher(haystack), self.remaining)
    }
}

/// A searcher letting the first `remaining` matches through unchanged;
/// on the first match past the budget it exhausts the underlying searcher
/// and reports everything from there to the end as one reject.
#[derive(Debug)]
pub struct LimitedSearcher<S> {
    searcher: FusedSearcher<IndexedSearcher<S>>,
    remaining: usize,
}

impl<S: Searcher> LimitedSearcher<S> {
    /// The wrapped searcher, cursor-tracking and fused.
    pub closed spec fn spec_searcher(self) -> FusedSearcher<IndexedSearcher<S>> {
        self.searcher
    }

    /// How many further matches will still be reported as matches.
    pub closed spec fn spec_remaining(self) -> nat {
        self.remaining as nat
    }

    /// Wraps `searcher`, which must not have emitted a span yet.
    pub fn new(searcher: S, remaining: usize) -> (r: Self)
        requires
            searcher.wf(),
            searcher.pos() == 0,
        ensures
            r.wf(),
            r.pos() == 0,
            r.hay() == searcher.hay(),
            r.spec_remaining() == remaining,
            !r.spec_searcher().spec_exhausted(),
            r.spec_searcher().spec_searcher().spec_searcher() == searcher,
    {
        LimitedSearcher {
            searcher: FusedSearcher::new(IndexedSearcher::new(searcher)),
            remaining,
        }
    }

    /// The cursor: the end of the most recently emitted span.
    pub fn index(&self) -> (r: usize)
        requires
            self.wf(),
        ensures
            r == self.pos(),
    {
        self.searcher.inner().index()
    }

    /// Returns the maximum number of remaining matches.
    pub fn remaining(&self) -> (r: usize)
        ensures
            r == self.spec_remaining(),
    {
        self.remaining
    }
}

impl<S: Searcher> Searcher for LimitedSearcher<S> {
    closed spec fn hay(&self) -> Seq<u8> {
        self.searcher.hay()
    }

    closed spec fn pos(&self) -> int {
        self.searcher.pos()
    }

    closed spec fn wf(&self) -> bool {
        self.searcher.wf()
    }

    open spec fn can_match(&self, s: int, e: int) -> bool {
        self.spec_searcher().can_match(s, e)
    }

    open spec fn can_reject(&self, s: int, e: int) -> bool {
        ||| self.spec_searcher().can_reject(s, e)
        ||| self.spec_searcher().can_match(s, e)
        ||| e == self.hay().len()
    }

    closed spec fn work(&self) -> nat {
        self.searcher.work()
    }

    proof fn lemma_wf_pos(&self) {
        self.searcher.lemma_wf_pos();
    }

    fn haystack(&self) -> (h: &[u8]) {
        self.searcher.haystack()
    }

    fn next(&mut self) -> (step: SearchStep)
        ensures
            step is Match ==> old(self).spec_remaining() > 0
                && final(self).spec_remaining() == old(self).spec_remaining() - 1,
            !(step is Match) ==> final(self).spec_remaining() == old(self).spec_remaining(),
            step matches SearchStep::Reject(s, e) ==> (old(self).spec_remaining() > 0
                ==> final(self).spec_searcher().can_reject(s as int, e as int)),
            step matches SearchStep::Reject(s, e) ==> ((e as int) < old(self).hay().len()
                ==> final(self).spec_searcher().can_reject(s as int, e as int)),
            old(self).spec_searcher().spec_exhausted() ==> step is Done,
            step is Done ==> final(self).spec_searcher().spec_exhausted(),
            step matches SearchStep::Reject(s, e)
                ==> (final(self).spec_searcher().spec_exhausted()
                    || final(self).spec_searcher().can_reject(s as int, e as int)),
    {
        let step = self.searcher.next();

        if let SearchStep::Match(start, end) = step {
            // If there are any remaining matches, let this one through.
            if self.remaining > 0 {
                self.remaining = self.remaining - 1;
                return SearchStep::Match(start, end);
            }

            // The budget is spent: nothing further will be reported as a
            // match, so drain the underlying searcher and reject the rest
            // of the haystack in one span.
            self.searcher.exhaust();
            let len: usize = self.searcher.haystack().len();
            SearchStep::Reject(start, len)
        } else {
            step
        }
    }
}

} // verus!

//! Suppresses the first `n` matches of a searcher, reporting them as
//! rejects; all later matches pass through unchanged.

use vstd::prelude::*;

use crate::search::{Pattern, SearchStep, Searcher};

verus! {

/// A pattern whose searcher suppresses its first `n` matches.
#[derive(Debug)]
pub struct SkipPattern<P> {
    pattern: P,
    n: usize,
}

impl<P> SkipPattern<P> {
    /// The wrapped pattern.
    pub closed spec fn spec_pattern(self) -> P {
        self.pattern
    }

    /// How many matches are suppressed.
    pub closed spec fn spec_n(self) -> nat {
        self.n as nat
    }

    /// Wraps `pattern` so that the first `n` matches are reported as
    /// rejects.
    pub fn new(pattern: P, n: usize) -> (r: Self)
        ensures
            r.spec_pattern() == pattern,
            r.spec_n() == n,
    {
        SkipPattern { pattern, n }
    }
}

impl<'a, P: Pattern<'a>> Pattern<'a> for SkipPattern<P> {
    type Searcher = SkipSearcher<P::Searcher>;

    fn into_searcher(self, haystack: &'a [u8]) -> (s: Self::Searcher)
        ensures
            s.spec_n() == self.spec_n(),
            s.spec_searcher().wf(),
            s.spec_searcher().pos() == 0,
            s.spec_searcher().hay() == haystack@,
    {
        SkipSearcher::new(self.pattern.into_searcher(haystack), self.n)
    }
}

/// A searcher that turns the first `n` matches of the underlying searcher
/// into rejects, one for one; every other step passes through unchanged.
#[derive(Debug)]
pub struct SkipSearcher<S> {
    searcher: S,
    n: usize,
}

impl<S: Searcher> SkipSearcher<S> {
    /// The wrapped searcher.
    pub closed spec fn spec_searcher(self) -> S {
        self.searcher
    }

    /// How many further matches will still be suppressed.
    pub closed spec fn spec_n(self) -> nat {
        self.n as nat
    }

    /// Wraps `searcher`, suppressing its next `n` matches.
    pub fn new(searcher: S, n: usize) -> (r: Self)
        requires
            searcher.wf(),
        ensures
            r.wf(),
            r.pos() == searcher.pos(),
            r.hay() == searcher.hay(),
            r.spec_n() == n,
            r.spec_searcher() == searcher,
    {
        SkipSearcher { searcher, n }
    }
}

impl<S: Searcher> Searcher for SkipSearcher<S> {
    closed spec fn hay(&self) -> Seq<u8> {
        self.searcher.hay()
    }

    closed spec fn pos(&self) -> int {
        self.searcher.pos()
    }

    closed spec fn wf(&self) -> bool {
        self.searcher.wf()
    }

    open spec fn can_match(&self, s: int, e: int) -> bool {
        self.spec_searcher().can_match(s, e)
    }

    open spec fn can_reject(&self, s: int, e: int) -> bool {
        self.spec_searcher().can_reject(s, e) || self.spec_searcher().can_match(s, e)
    }

    closed spec fn work(&self) -> nat {
        self.searcher.work()
    }

    proof fn lemma_wf_pos(&self) {
        self.searcher.lemma_wf_pos();
    }

    fn haystack(&self) -> (h: &[u8]) {
        self.searcher.haystack()
    }

    fn next(&mut self) -> (step: SearchStep)
        ensures
            step is Match ==> old(self).spec_n() == 0 && final(self).spec_n() == 0,
            final(self).spec_n() <= old(self).spec_n(),
            step matches SearchStep::Reject(s, e) ==> (old(self).spec_n() == 0
                ==> final(self).spec_searcher().can_reject(s as int, e as int)),
            step matches SearchStep::Reject(s, e)
                ==> (final(self).spec_n() == old(self).spec_n()
                    ==> final(self).spec_searcher().can_reject(s as int, e as int)),
            step matches SearchStep::Reject(s, e)
                ==> old(self).spec_n() <= final(self).spec_n() + 1,
            step is Done ==> final(self).spec_n() == old(self).spec_n(),
    {
        let step = self.searcher.next();

        if let SearchStep::Match(start, end) = step {
            if self.n > 0 {
                self.n = self.n - 1;

                SearchStep::Reject(start, end)
            } else {
                SearchStep::Match(start, end)
            }
        } else {
            step
        }
    }
}

} // verus!

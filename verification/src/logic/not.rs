//! Complement: swaps match and reject on every step, leaving the spans —
//! and so the continuity of the partition — untouched.

use vstd::prelude::*;

use crate::search::{Pattern, ReverseSearcher, SearchStep, Searcher};

verus! {

/// A pattern matching exactly the spans its inner pattern rejects.
#[derive(Debug, Clone, Copy, PartialEq, Eq)]
pub struct NotPattern<A> {
    pattern: A,
}

impl<A> NotPattern<A> {
    /// The complemented pattern.
    pub closed spec fn spec_pattern(self) -> A {
        self.pattern
    }

    /// Constructs the complement of `pattern`.
    pub fn new(pattern: A) -> (r: Self)
        ensures
            r.spec_pattern() == pattern,
    {
        NotPattern { pattern }
    }
}

impl<'a, A: Pattern<'a>> Pattern<'a> for NotPattern<A> {
    type Searcher = NotSearcher<A::Searcher>;

    fn into_searcher(self, haystack: &'a [u8]) -> (s: Self::Searcher)
        ensures
            s.spec_searcher().wf(),
            s.spec_searcher().pos() == 0,
            s.spec_searcher().hay() == haystack@,
    {
        NotSearcher::new(self.pattern.into_searcher(haystack))
    }
}

/// A searcher relabelling every step of the underlying searcher: matches
/// become rejects and rejects become matches; `Done` passes through.
#[derive(Debug, Clone, Copy, PartialEq, Eq)]
pub struct NotSearcher<S> {
    searcher: S,
}

impl<S: Searcher> NotSearcher<S> {
    /// The wrapped searcher.
    pub closed spec fn spec_searcher(self) -> S {
        self.searcher
    }

    /// Wraps `searcher`, swapping match and reject.
    pub fn new(searcher: S) -> (r: Self)
        requires
            searcher.wf(),
        ensures
            r.wf(),
            r.pos() == searcher.pos(),
            r.hay() == searcher.hay(),
            r.spec_searcher() == searcher,
            forall|s: int, e: int| #![trigger r.can_match(s, e)] #![trigger searcher.can_reject(s, e)]
                r.can_match(s, e) == searcher.can_reject(s, e),
            forall|s: int, e: int| #![trigger r.can_reject(s, e)] #![trigger searcher.can_match(s, e)]
                r.can_reject(s, e) == searcher.can_match(s, e),
    {
        NotSearcher { searcher }
    }
}

impl<S: Searcher> Searcher for NotSearcher<S> {
    closed spec fn hay(&self) -> Seq<u8> {
        self.searcher.hay()
    }

    closed spec fn pos(&self) -> int {
        self.searcher.pos()
    }

    closed spec fn wf(&self) -> bool {
        self.searcher.wf()
    }

    open spec fn can_match(&self, s: int, e: int) -> bool {
        self.spec_searcher().can_reject(s, e)
    }

    open spec fn can_reject(&self, s: int, e: int) -> bool {
        self.spec_searcher().can_match(s, e)
    }

    closed spec fn work(&self) -> nat {
        self.searcher.work()
    }

    proof fn lemma_wf_pos(&self) {
        self.searcher.lemma_wf_pos();
    }

    fn haystack(&self) -> (h: &[u8]) {
        self.searcher.haystack()
    }

    fn next(&mut self) -> (step: SearchStep) {
        match self.searcher.next() {
            SearchStep::Match(start, end) => SearchStep::Reject(start, end),
            SearchStep::Reject(start, end) => SearchStep::Match(start, end),
            SearchStep::Done => SearchStep::Done,
        }
    }
}

impl<S: ReverseSearcher> ReverseSearcher for NotSearcher<S> {
    closed spec fn rpos(&self) -> int {
        self.searcher.rpos()
    }

    closed spec fn rwf(&self) -> bool {
        self.searcher.rwf()
    }

    closed spec fn rwork(&self) -> nat {
        self.searcher.rwork()
    }

    proof fn lemma_rwf_pos(&self) {
        self.searcher.lemma_rwf_pos();
    }

    fn next_back(&mut self) -> (step: SearchStep) {
        match self.searcher.next_back() {
            SearchStep::Match(start, end) => SearchStep::Reject(start, end),
            SearchStep::Reject(start, end) => SearchStep::Match(start, end),
            SearchStep::Done => SearchStep::Done,
        }
    }
}

} // verus!

//! A pure observer that keeps track of the cursor: the end of the most
//! recently emitted span.

use vstd::prelude::*;

use crate::search::{Pattern, SearchStep, Searcher};

verus! {

/// A pattern whose searcher records the running cursor position.
#[derive(Debug)]
pub struct IndexedPattern<P> {
    pattern: P,
}

impl<P> IndexedPattern<P> {
    /// The wrapped pattern.
    pub closed spec fn spec_pattern(self) -> P {
        self.pattern
    }

    /// Wraps `pattern` so that its searcher exposes the cursor.
    pub fn new(pattern: P) -> (r: Self)
        ensures
            r.spec_pattern() == pattern,
    {
        IndexedPattern { pattern }
    }
}

impl<'a, P: Pattern<'a>> Pattern<'a> for IndexedPattern<P> {
    type Searcher = IndexedSearcher<P::Searcher>;

    fn into_searcher(self, haystack: &'a [u8]) -> (s: Self::Searcher)
        ensures
            s.spec_searcher().wf(),
            s.spec_searcher().pos() == 0,
            s.spec_searcher().hay() == haystack@,
    {
        IndexedSearcher::new(self.pattern.into_searcher(haystack))
    }
}

/// A searcher recording the end of the most recent step.  It passes every
/// step of the underlying searcher through unaltered.
#[derive(Debug)]
pub struct IndexedSearcher<S> {
    searcher: S,
    index: usize,
}

impl<S: Searcher> IndexedSearcher<S> {
    /// The wrapped searcher.
    pub closed spec fn spec_searcher(self) -> S {
        self.searcher
    }

    /// Wraps `searcher`, which must not have emitted a span yet.
    pub fn new(searcher: S) -> (r: Self)
        requires
            searcher.wf(),
            searcher.pos() == 0,
        ensures
            r.wf(),
            r.pos() == 0,
            r.hay() == searcher.hay(),
            r.spec_searcher() == searcher,
            forall|s: int, e: int| #![trigger r.can_match(s, e)] #![trigger searcher.can_match(s, e)]
                r.can_match(s, e) == searcher.can_match(s, e),
            forall|s: int, e: int| #![trigger r.can_reject(s, e)] #![trigger searcher.can_reject(s, e)]
                r.can_reject(s, e) == searcher.can_reject(s, e),
    {
        IndexedSearcher { searcher, index: 0 }
    }

    /// The cursor: the end of the most recently emitted span, 0 before
    /// the first step.
    pub fn index(&self) -> (r: usize)
        requires
            self.wf(),
        ensures
            r == self.pos(),
    {
        self.index
    }
}

impl<S: Searcher> Searcher for IndexedSearcher<S> {
    closed spec fn hay(&self) -> Seq<u8> {
        self.searcher.hay()
    }

    closed spec fn pos(&self) -> int {
        self.searcher.pos()
    }

    closed spec fn wf(&self) -> bool {
        &&& self.searcher.wf()
        &&& self.index as int == self.searcher.pos()
    }

    open spec fn can_match(&self, s: int, e: int) -> bool {
        self.spec_searcher().can_match(s, e)
    }

    open spec fn can_reject(&self, s: int, e: int) -> bool {
        self.spec_searcher().can_reject(s, e)
    }

    closed spec fn work(&self) -> nat {
        self.searcher.work()
    }

    proof fn lemma_wf_pos(&self) {
        self.searcher.lemma_wf_pos();
    }

    fn haystack(&self) -> (h: &[u8]) {
        self.searcher.haystack()
    }

    fn next(&mut self) -> (step: SearchStep) {
        let step = self.searcher.next();

        match step {
            SearchStep::Match(_, end) => {
                self.index = end;
            }
            SearchStep::Reject(_, end) => {
                self.index = end;
            }
            SearchStep::Done => {}
        }

        step
    }
}

} // verus!

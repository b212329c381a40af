//! Idempotent exhaustion: once the underlying searcher has reported
//! `Done`, a fused searcher keeps reporting `Done` without calling it
//! again.

use vstd::prelude::*;

use crate::search::{Pattern, ReverseSearcher, SearchStep, Searcher};

verus! {

/// A pattern whose searcher is fused: after the first `Done`, every
/// further step is `Done`.
#[derive(Debug)]
pub struct FusedPattern<P> {
    pattern: P,
}

impl<P> FusedPattern<P> {
    /// The wrapped pattern.
    pub closed spec fn spec_pattern(self) -> P {
        self.pattern
    }

    /// Wraps `pattern` so that its searcher is fused.
    pub fn new(pattern: P) -> (r: Self)
        ensures
            r.spec_pattern() == pattern,
    {
        FusedPattern { pattern }
    }
}

impl<'a, P: Pattern<'a>> Pattern<'a> for FusedPattern<P> {
    type Searcher = FusedSearcher<P::Searcher>;

    fn into_searcher(self, haystack: &'a [u8]) -> (s: Self::Searcher)
        ensures
            !s.spec_exhausted(),
            s.spec_searcher().wf(),
            s.spec_searcher().pos() == 0,
            s.spec_searcher().hay() == haystack@,
    {
        FusedSearcher::new(self.pattern.into_searcher(haystack))
    }
}

/// A searcher that returns `Done` forever after the first `Done`, without
/// invoking the underlying searcher past its exhaustion.
#[derive(Debug)]
pub struct FusedSearcher<S> {
    searcher: S,
    exhausted: bool,
    rexhausted: bool,
}

impl<S: Searcher> FusedSearcher<S> {
    /// Whether `Done` has been reported.
    pub closed spec fn spec_exhausted(self) -> bool {
        self.exhausted
    }

    /// Whether `Done` has been reported by the backward traversal.
    pub closed spec fn spec_rexhausted(self) -> bool {
        self.rexhausted
    }

    /// The wrapped searcher.
    pub closed spec fn spec_searcher(self) -> S {
        self.searcher
    }

    /// Fuses `searcher`.
    pub fn new(searcher: S) -> (r: Self)
        requires
            searcher.wf(),
        ensures
            r.wf(),
            r.pos() == searcher.pos(),
            r.hay() == searcher.hay(),
            !r.spec_exhausted(),
            !r.spec_rexhausted(),
            r.spec_searcher() == searcher,
            forall|s: int, e: int| #![trigger r.can_match(s, e)] #![trigger searcher.can_match(s, e)]
                r.can_match(s, e) == searcher.can_match(s, e),
            forall|s: int, e: int| #![trigger r.can_reject(s, e)] #![trigger searcher.can_reject(s, e)]
                r.can_reject(s, e) == searcher.can_reject(s, e),
    {
        FusedSearcher { searcher, exhausted: false, rexhausted: false }
    }

    /// A shared view of the wrapped searcher.
    pub fn inner(&self) -> (r: &S)
        requires
            self.wf(),
        ensures
            *r == self.spec_searcher(),
            r.wf(),
            r.pos() == self.pos(),
    {
        &self.searcher
    }

    /// Exhausts the searcher by calling [`Searcher::next`] repeatedly until
    /// `Done` is returned.
    pub fn exhaust(&mut self)
        requires
            old(self).wf(),
        ensures
            final(self).wf(),
            final(self).hay() == old(self).hay(),
            final(self).pos() == old(self).hay().len(),
            final(self).spec_exhausted(),
            final(self).work() <= old(self).work(),
            forall|s: int, e: int|
                #![trigger final(self).can_match(s, e)] #![trigger old(self).can_match(s, e)]
                final(self).can_match(s, e) == old(self).can_match(s, e),
            forall|s: int, e: int|
                #![trigger final(self).can_reject(s, e)] #![trigger old(self).can_reject(s, e)]
                final(self).can_reject(s, e) == old(self).can_reject(s, e),
    {
        loop
            invariant
                self.wf(),
                self.hay() == old(self).hay(),
                self.work() <= old(self).work(),
                forall|s: int, e: int|
                    #![trigger self.can_match(s, e)] #![trigger old(self).can_match(s, e)]
                    self.can_match(s, e) == old(self).can_match(s, e),
                forall|s: int, e: int|
                    #![trigger self.can_reject(s, e)] #![trigger old(self).can_reject(s, e)]
                    self.can_reject(s, e) == old(self).can_reject(s, e),
            decreases self.work(),
        {
            if self.next() == SearchStep::Done {
                return;
            }
        }
    }
}

impl<S: Searcher> Searcher for FusedSearcher<S> {
    closed spec fn hay(&self) -> Seq<u8> {
        self.searcher.hay()
    }

    closed spec fn pos(&self) -> int {
        self.searcher.pos()
    }

    closed spec fn wf(&self) -> bool {
        &&& self.searcher.wf()
        &&& (self.exhausted ==> self.searcher.pos() == self.searcher.hay().len())
    }

    open spec fn can_match(&self, s: int, e: int) -> bool {
        self.spec_searcher().can_match(s, e)
    }

    open spec fn can_reject(&self, s: int, e: int) -> bool {
        self.spec_searcher().can_reject(s, e)
    }

    closed spec fn work(&self) -> nat {
        self.searcher.work()
    }

    proof fn lemma_wf_pos(&self) {
        self.searcher.lemma_wf_pos();
    }

    fn haystack(&self) -> (h: &[u8]) {
        self.searcher.haystack()
    }

    fn next(&mut self) -> (step: SearchStep)
        ensures
            old(self).spec_exhausted() ==> step == SearchStep::Done,
            final(self).spec_exhausted() == (old(self).spec_exhausted()
                || step == SearchStep::Done),
            final(self).spec_rexhausted() == old(self).spec_rexhausted(),
    {
        if self.exhausted {
            return SearchStep::Done;
        }

        let step = self.searcher.next();

        if step == SearchStep::Done {
            self.exhausted = true;
        }

        step
    }
}

impl<S: ReverseSearcher> FusedSearcher<S> {
    /// A fused searcher whose backward traversal has not reported `Done`
    /// inherits backward well-formedness from its child.
    pub proof fn lemma_rwf_fresh(&self)
        requires
            self.spec_searcher().rwf(),
            !self.spec_rexhausted(),
        ensures
            self.rwf(),
    {
    }
}

impl<S: ReverseSearcher> ReverseSearcher for FusedSearcher<S> {
    closed spec fn rpos(&self) -> int {
        self.searcher.rpos()
    }

    closed spec fn rwf(&self) -> bool {
        &&& self.searcher.rwf()
        &&& (self.rexhausted ==> self.searcher.rpos() == 0)
    }

    closed spec fn rwork(&self) -> nat {
        self.searcher.rwork()
    }

    proof fn lemma_rwf_pos(&self) {
        self.searcher.lemma_rwf_pos();
    }

    fn next_back(&mut self) -> (step: SearchStep)
        ensures
            old(self).spec_rexhausted() ==> step == SearchStep::Done,
            final(self).spec_rexhausted() == (old(self).spec_rexhausted()
                || step == SearchStep::Done),
            final(self).spec_exhausted() == old(self).spec_exhausted(),
    {
        if self.rexhausted {
            return SearchStep::Done;
        }

        let step = self.searcher.next_back();

        if step == SearchStep::Done {
            self.rexhausted = true;
        }

        step
    }
}

} // verus!

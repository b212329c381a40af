//! One-step lookahead: buffers at most one upcoming step so a combinator
//! can inspect the next step without consuming it.

use vstd::prelude::*;

use crate::search::{Pattern, ReverseSearcher, SearchStep, Searcher};

verus! {

/// A pattern whose searcher supports [`PeekableSearcher::peek`].
#[derive(Debug)]
pub struct PeekablePattern<P> {
    pattern: P,
}

impl<P> PeekablePattern<P> {
    /// The wrapped pattern.
    pub closed spec fn spec_pattern(self) -> P {
        self.pattern
    }

    /// Wraps `pattern` so that its searcher can look one step ahead.
    pub fn new(pattern: P) -> (r: Self)
        ensures
            r.spec_pattern() == pattern,
    {
        PeekablePattern { pattern }
    }
}

impl<'a, P: Pattern<'a>> Pattern<'a> for PeekablePattern<P> {
    type Searcher = PeekableSearcher<P::Searcher>;

    fn into_searcher(self, haystack: &'a [u8]) -> (s: Self::Searcher)
        ensures
            s.spec_peeked() is None,
            s.spec_peeked_back() is None,
            s.spec_searcher().wf(),
            s.spec_searcher().pos() == 0,
            s.spec_searcher().hay() == haystack@,
    {
        PeekableSearcher::new(self.pattern.into_searcher(haystack))
    }
}

/// A searcher with [`PeekableSearcher::peek`]: the next step can be
/// inspected without advancing the cursor; repeated peeks before a `next`
/// return the same buffered step.
#[derive(Debug)]
pub struct PeekableSearcher<S> {
    searcher: S,
    peeked: Option<SearchStep>,
    peeked_back: Option<SearchStep>,
}

impl<S: Searcher> PeekableSearcher<S> {
    /// The wrapped searcher.
    pub closed spec fn spec_searcher(self) -> S {
        self.searcher
    }

    /// The buffered step, if one has been peeked and not yet consumed.
    pub closed spec fn spec_peeked(self) -> Option<SearchStep> {
        self.peeked
    }

    /// The buffered backward step, if one has been peeked from the back
    /// and not yet consumed.
    pub closed spec fn spec_peeked_back(self) -> Option<SearchStep> {
        self.peeked_back
    }

    /// Wraps `searcher` with a one-step lookahead buffer.
    pub fn new(searcher: S) -> (r: Self)
        requires
            searcher.wf(),
        ensures
            r.wf(),
            r.pos() == searcher.pos(),
            r.hay() == searcher.hay(),
            r.spec_peeked() is None,
            r.spec_peeked_back() is None,
            r.spec_searcher() == searcher,
            forall|s: int, e: int| #![trigger r.can_match(s, e)] #![trigger searcher.can_match(s, e)]
                r.can_match(s, e) == searcher.can_match(s, e),
            forall|s: int, e: int| #![trigger r.can_reject(s, e)] #![trigger searcher.can_reject(s, e)]
                r.can_reject(s, e) == searcher.can_reject(s, e),
    {
        PeekableSearcher { searcher, peeked: None, peeked_back: None }
    }

    /// Returns the next step without advancing the searcher: the step a
    /// following call to [`Searcher::next`] will return.
    pub fn peek(&mut self) -> (step: SearchStep)
        requires
            old(self).wf(),
        ensures
            final(self).wf(),
            final(self).hay() == old(self).hay(),
            final(self).pos() == old(self).pos(),
            final(self).work() <= old(self).work(),
            final(self).spec_peeked() == Some(step),
            final(self).spec_peeked_back() == old(self).spec_peeked_back(),
            old(self).spec_peeked() matches Some(buffered) ==> step == buffered,
            forall|s: int, e: int|
                #![trigger final(self).can_match(s, e)] #![trigger old(self).can_match(s, e)]
                final(self).can_match(s, e) == old(self).can_match(s, e),
            forall|s: int, e: int|
                #![trigger final(self).can_reject(s, e)] #![trigger old(self).can_reject(s, e)]
                final(self).can_reject(s, e) == old(self).can_reject(s, e),
            step matches SearchStep::Match(s, e)
                ==> s == old(self).pos() && s <= e && e <= old(self).hay().len()
                    && final(self).can_match(s as int, e as int),
            step matches SearchStep::Reject(s, e)
                ==> s == old(self).pos() && s <= e && e <= old(self).hay().len()
                    && final(self).can_reject(s as int, e as int),
            step is Done ==> old(self).pos() == old(self).hay().len(),
    {
        match self.peeked {
            Some(step) => step,
            None => {
                let step = self.searcher.next();
                self.peeked = Some(step);
                step
            }
        }
    }
}

impl<S: ReverseSearcher> PeekableSearcher<S> {
    /// A lookahead searcher with no buffered backward step inherits
    /// backward well-formedness from its child.
    pub proof fn lemma_rwf_fresh(&self)
        requires
            self.spec_searcher().rwf(),
            self.spec_peeked_back() is None,
        ensures
            self.rwf(),
    {
    }

    /// Returns the next backward step without advancing the searcher: the
    /// step a following call to [`ReverseSearcher::next_back`] will
    /// return.
    pub fn peek_back(&mut self) -> (step: SearchStep)
        requires
            old(self).wf(),
            old(self).rwf(),
        ensures
            final(self).wf(),
            final(self).rwf(),
            final(self).hay() == old(self).hay(),
            final(self).pos() == old(self).pos(),
            final(self).rpos() == old(self).rpos(),
            final(self).rwork() <= old(self).rwork(),
            final(self).spec_peeked_back() == Some(step),
            final(self).spec_peeked() == old(self).spec_peeked(),
            old(self).spec_peeked_back() matches Some(buffered) ==> step == buffered,
            forall|s: int, e: int|
                #![trigger final(self).can_match(s, e)] #![trigger old(self).can_match(s, e)]
                final(self).can_match(s, e) == old(self).can_match(s, e),
            forall|s: int, e: int|
                #![trigger final(self).can_reject(s, e)] #![trigger old(self).can_reject(s, e)]
                final(self).can_reject(s, e) == old(self).can_reject(s, e),
            step matches SearchStep::Match(s, e)
                ==> e == old(self).rpos() && s <= e
                    && final(self).can_match(s as int, e as int),
            step matches SearchStep::Reject(s, e)
                ==> e == old(self).rpos() && s <= e
                    && final(self).can_reject(s as int, e as int),
            step is Done ==> old(self).rpos() == 0,
    {
        match self.peeked_back {
            Some(step) => step,
            None => {
                let step = self.searcher.next_back();
                self.peeked_back = Some(step);
                step
            }
        }
    }
}

impl<S: Searcher> Searcher for PeekableSearcher<S> {
    closed spec fn hay(&self) -> Seq<u8> {
        self.searcher.hay()
    }

    closed spec fn pos(&self) -> int {
        match self.peeked {
            Some(SearchStep::Match(s, _)) => s as int,
            Some(SearchStep::Reject(s, _)) => s as int,
            _ => self.searcher.pos(),
        }
    }

    closed spec fn wf(&self) -> bool {
        &&& self.searcher.wf()
        &&& match self.peeked {
            Some(SearchStep::Match(s, e)) => {
                &&& s <= e <= self.searcher.hay().len()
                &&& self.searcher.pos() == e
                &&& self.searcher.can_match(s as int, e as int)
            },
            Some(SearchStep::Reject(s, e)) => {
                &&& s <= e <= self.searcher.hay().len()
                &&& self.searcher.pos() == e
                &&& self.searcher.can_reject(s as int, e as int)
            },
            Some(SearchStep::Done) => self.searcher.pos() == self.searcher.hay().len(),
            None => true,
        }
    }

    open spec fn can_match(&self, s: int, e: int) -> bool {
        self.spec_searcher().can_match(s, e)
    }

    open spec fn can_reject(&self, s: int, e: int) -> bool {
        self.spec_searcher().can_reject(s, e)
    }

    closed spec fn work(&self) -> nat {
        self.searcher.work() + match self.peeked {
            Some(SearchStep::Match(_, _)) => 1nat,
            Some(SearchStep::Reject(_, _)) => 1nat,
            _ => 0nat,
        }
    }

    proof fn lemma_wf_pos(&self) {
        self.searcher.lemma_wf_pos();
    }

    fn haystack(&self) -> (h: &[u8]) {
        self.searcher.haystack()
    }

    fn next(&mut self) -> (step: SearchStep)
        ensures
            old(self).spec_peeked() matches Some(buffered) ==> step == buffered,
            final(self).spec_peeked() is None,
            final(self).spec_peeked_back() == old(self).spec_peeked_back(),
    {
        let taken = self.peeked.take();
        match taken {
            Some(step) => step,
            None => self.searcher.next(),
        }
    }
}

impl<S: ReverseSearcher> ReverseSearcher for PeekableSearcher<S> {
    closed spec fn rpos(&self) -> int {
        match self.peeked_back {
            Some(SearchStep::Match(_, e)) => e as int,
            Some(SearchStep::Reject(_, e)) => e as int,
            _ => self.searcher.rpos(),
        }
    }

    closed spec fn rwf(&self) -> bool {
        &&& self.searcher.rwf()
        &&& match self.peeked_back {
            Some(SearchStep::Match(s, e)) => {
                &&& s <= e <= self.searcher.hay().len()
                &&& self.searcher.rpos() == s as int
                &&& self.searcher.can_match(s as int, e as int)
            },
            Some(SearchStep::Reject(s, e)) => {
                &&& s <= e <= self.searcher.hay().len()
                &&& self.searcher.rpos() == s as int
                &&& self.searcher.can_reject(s as int, e as int)
            },
            Some(SearchStep::Done) => self.searcher.rpos() == 0,
            None => true,
        }
    }

    closed spec fn rwork(&self) -> nat {
        self.searcher.rwork() + match self.peeked_back {
            Some(SearchStep::Match(_, _)) => 1nat,
            Some(SearchStep::Reject(_, _)) => 1nat,
            _ => 0nat,
        }
    }

    proof fn lemma_rwf_pos(&self) {
        self.searcher.lemma_rwf_pos();
    }

    fn next_back(&mut self) -> (step: SearchStep)
        ensures
            old(self).spec_peeked_back() matches Some(buffered) ==> step == buffered,
            final(self).spec_peeked_back() is None,
            final(self).spec_peeked() == old(self).spec_peeked(),
    {
        let taken = self.peeked_back.take();
        match taken {
            Some(step) => step,
            None => self.searcher.next_back(),
        }
    }
}

} // verus!

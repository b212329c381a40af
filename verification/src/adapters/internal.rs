//! A small toolkit for combinators that rebuild a partition from a
//! matches-only view of an underlying searcher: a cursor, a one-slot
//! candidate cache, and the reject-then-match emission steps.

use vstd::prelude::*;

use crate::search::{SearchStep, Searcher};

verus! {

/// A cursor over an underlying searcher, with a one-slot cache for a
/// match that was read but not yet consumed and a buffer for a match that
/// must follow a gap reject.
#[derive(Debug)]
pub struct InternalSearcher<S> {
    searcher: S,
    index: usize,
    cached: Option<(usize, usize)>,
    next_match: Option<(usize, usize)>,
}

impl<S: Searcher> InternalSearcher<S> {
    /// The wrapped searcher.
    pub closed spec fn spec_searcher(self) -> S {
        self.searcher
    }

    /// The cursor: the end of the most recently emitted span.
    pub closed spec fn spec_index(self) -> int {
        self.index as int
    }

    /// The cached candidate match, read but not yet consumed.
    pub closed spec fn spec_cached(self) -> Option<(usize, usize)> {
        self.cached
    }

    /// The buffered match that a just-emitted reject must be followed by.
    pub closed spec fn spec_next_match(self) -> Option<(usize, usize)> {
        self.next_match
    }

    /// Internal well-formedness.
    pub closed spec fn inv(self) -> bool {
        &&& self.searcher.wf()
        &&& self.index as int <= self.searcher.hay().len()
        &&& match self.cached {
            Some((s, e)) => {
                s <= e <= self.searcher.hay().len()
                    && self.searcher.can_match(s as int, e as int)
            },
            None => true,
        }
        &&& match self.next_match {
            Some((s, e)) => {
                &&& s as int == self.index as int
                &&& s <= e <= self.searcher.hay().len()
                &&& self.searcher.can_match(s as int, e as int)
            },
            None => true,
        }
    }

    /// Wraps `searcher` with a fresh cursor.
    pub fn new(searcher: S) -> (r: Self)
        requires
            searcher.wf(),
        ensures
            r.inv(),
            r.spec_index() == 0,
            r.spec_searcher() == searcher,
            r.spec_cached() is None,
            r.spec_next_match() is None,
    {
        proof {
            searcher.lemma_wf_pos();
        }
        InternalSearcher { searcher, index: 0, cached: None, next_match: None }
    }

    /// The cursor: the end of the most recently emitted span.
    pub fn index(&self) -> (r: usize)
        ensures
            r == self.spec_index(),
    {
        self.index
    }

    /// The next candidate match: the cached one if at hand, else one
    /// freshly pulled from the underlying searcher.
    fn next_internal_match(&mut self) -> (m: Option<(usize, usize)>)
        requires
            old(self).inv(),
        ensures
            final(self).inv(),
            final(self).spec_index() == old(self).spec_index(),
            final(self).spec_next_match() == old(self).spec_next_match(),
            final(self).spec_cached() is None,
            final(self).spec_searcher().hay() == old(self).spec_searcher().hay(),
            old(self).spec_cached() matches Some(v) ==> m == Some(v),
            m matches Some((s, e))
                ==> s <= e <= old(self).spec_searcher().hay().len()
                    && final(self).spec_searcher().can_match(s as int, e as int),
    {
        let taken = self.cached.take();
        match taken {
            Some(v) => Some(v),
            None => self.searcher.next_match(),
        }
    }

    /// Remembers a match that was read but not yet consumed.
    pub fn cache_match(&mut self, start: usize, end: usize)
        requires
            old(self).inv(),
            start <= end <= old(self).spec_searcher().hay().len(),
            old(self).spec_searcher().can_match(start as int, end as int),
        ensures
            final(self).inv(),
            final(self).spec_cached() == Some((start, end)),
            final(self).spec_index() == old(self).spec_index(),
            final(self).spec_next_match() == old(self).spec_next_match(),
            final(self).spec_searcher() == old(self).spec_searcher(),
    {
        self.cached = Some((start, end));
    }

    /// Emits the match `[start, end)`: directly when the cursor stands at
    /// its start, otherwise rejecting the gap first and buffering the
    /// match for the immediately following step.
    pub fn match_step(&mut self, start: usize, end: usize) -> (step: SearchStep)
        requires
            old(self).inv(),
            old(self).spec_next_match() is None,
            old(self).spec_index() <= start,
            start <= end <= old(self).spec_searcher().hay().len(),
            old(self).spec_searcher().can_match(start as int, end as int),
        ensures
            final(self).inv(),
            crate::search::step_ok(
                old(self).spec_index(),
                final(self).spec_index(),
                old(self).spec_searcher().hay().len() as int,
                step,
            ),
            !(step is Done),
            step matches SearchStep::Match(s, e) ==> (s, e) == (start, end),
            step matches SearchStep::Reject(s2, e2)
                ==> e2 == start && final(self).spec_next_match() == Some((start, end)),
    {
        if self.index < start {
            self.next_match = Some((start, end));
            let from: usize = self.index;
            self.index = start;
            return SearchStep::Reject(from, start);
        }

        self.index = end;
        SearchStep::Match(start, end)
    }

    /// Rejects everything from the cursor up to `end`.
    pub fn reject_to(&mut self, end: usize) -> (step: SearchStep)
        requires
            old(self).inv(),
            old(self).spec_next_match() is None,
            old(self).spec_index() <= end,
            end <= old(self).spec_searcher().hay().len(),
        ensures
            final(self).inv(),
            step == SearchStep::Reject((old(self).spec_index()) as usize, end),
            final(self).spec_index() == end,
    {
        let from: usize = self.index;
        self.index = end;
        SearchStep::Reject(from, end)
    }
}

} // verus!

//! Reject merging, driven by the range type: like
//! [`crate::adapters::greedy_reject`], it folds the gaps between the
//! underlying searcher's matches into single maximal rejects; the gap
//! bookkeeping here goes through [`Range`] values.

use vstd::prelude::*;

use crate::search::{Pattern, SearchStep, Searcher};
use crate::utils::Range;

verus! {

/// A pattern whose searcher never emits two consecutive rejects.
#[derive(Debug)]
pub struct SimplifyingPattern<P> {
    pattern: P,
}

impl<P> SimplifyingPattern<P> {
    /// The wrapped pattern.
    pub closed spec fn spec_pattern(self) -> P {
        self.pattern
    }

    /// Constructs a new [`SimplifyingPattern`] with the provided
    /// underlying pattern.
    pub fn new(pattern: P) -> (r: Self)
        ensures
            r.spec_pattern() == pattern,
    {
        SimplifyingPattern { pattern }
    }
}

impl<'a, P: Pattern<'a>> Pattern<'a> for SimplifyingPattern<P> {
    type Searcher = SimplifyingSearcher<P::Searcher>;

    fn into_searcher(self, haystack: &'a [u8]) -> (s: Self::Searcher)
        ensures
            s.spec_next_match() is None,
            s.spec_searcher().wf(),
            s.spec_searcher().pos() == 0,
            s.spec_searcher().hay() == haystack@,
    {
        SimplifyingSearcher::new(self.pattern.into_searcher(haystack))
    }
}

/// The searcher of a [`SimplifyingPattern`].
#[derive(Debug)]
pub struct SimplifyingSearcher<S> {
    searcher: S,
    index: usize,
    next_match: Option<(usize, usize)>,
}

impl<S: Searcher> SimplifyingSearcher<S> {
    /// The wrapped searcher.
    pub closed spec fn spec_searcher(self) -> S {
        self.searcher
    }

    /// The buffered match that a just-emitted reject must be followed by.
    pub closed spec fn spec_next_match(self) -> Option<(usize, usize)> {
        self.next_match
    }

    /// Constructs a new [`SimplifyingSearcher`] with the provided
    /// underlying searcher.
    pub fn new(searcher: S) -> (r: Self)
        requires
            searcher.wf(),
        ensures
            r.wf(),
            r.pos() == 0,
            r.hay() == searcher.hay(),
            r.spec_searcher() == searcher,
            r.spec_next_match() is None,
    {
        proof {
            searcher.lemma_wf_pos();
        }
        SimplifyingSearcher { searcher, index: 0, next_match: None }
    }

    /// Emits the match covered by `range`: directly when the cursor
    /// stands at its start, otherwise rejecting the gap first and
    /// buffering the match.
    fn match_step(&mut self, range: Range) -> (step: SearchStep)
        requires
            old(self).wf(),
            old(self).spec_next_match() is None,
            old(self).pos() <= range.start,
            range.start <= range.end <= old(self).hay().len(),
            range.end as int <= old(self).spec_searcher().pos(),
            old(self).can_match(range.start as int, range.end as int),
        ensures
            final(self).wf(),
            final(self).hay() == old(self).hay(),
            forall|s: int, e: int|
                #![trigger final(self).can_match(s, e)] #![trigger old(self).can_match(s, e)]
                final(self).can_match(s, e) == old(self).can_match(s, e),
            forall|s: int, e: int|
                #![trigger final(self).can_reject(s, e)] #![trigger old(self).can_reject(s, e)]
                final(self).can_reject(s, e) == old(self).can_reject(s, e),
            crate::search::step_ok(
                old(self).pos(),
                final(self).pos(),
                old(self).hay().len() as int,
                step,
            ),
            !(step is Done),
            step matches SearchStep::Match(s, e)
                ==> final(self).can_match(s as int, e as int),
            step is Match ==> step == SearchStep::Match(range.start, range.end)
                && final(self).spec_next_match() is None,
            step matches SearchStep::Reject(s2, e2)
                ==> s2 < e2 && e2 == range.start
                    && final(self).spec_next_match() == Some((range.start, range.end))
                    && final(self).can_reject(s2 as int, e2 as int),
            final(self).spec_searcher() == old(self).spec_searcher(),
            final(self).work() <= old(self).work() + 1,
    {
        let index: usize = self.index;

        if index < range.start() {
            self.next_match = Some((range.start(), range.end()));
            self.index = range.start();
            proof {
                lemma_can_reject_frame(*old(self), *self);
                assert(self.spec_searcher().can_match(range.start as int, range.end as int));
                assert(self.can_reject(index as int, range.start as int));
            }
            return SearchStep::Reject(index, range.start());
        }

        self.index = range.end();
        proof {
            lemma_can_reject_frame(*old(self), *self);
        }
        SearchStep::Match(range.start(), range.end())
    }
}


/// Transfers the merged-reject predicate across an update of the searcher
/// state that preserves the haystack and the child's candidate-match
/// predicate.
proof fn lemma_can_reject_frame<S: Searcher>(
    pre: SimplifyingSearcher<S>,
    post: SimplifyingSearcher<S>,
)
    requires
        post.hay() == pre.hay(),
        forall|s: int, e: int|
            #![trigger post.spec_searcher().can_match(s, e)]
            #![trigger pre.spec_searcher().can_match(s, e)]
            post.spec_searcher().can_match(s, e) == pre.spec_searcher().can_match(s, e),
    ensures
        forall|s: int, e: int|
            #![trigger post.can_reject(s, e)] #![trigger pre.can_reject(s, e)]
            post.can_reject(s, e) == pre.can_reject(s, e),
{
    assert forall|s: int, e: int|
        #![trigger post.can_reject(s, e)] #![trigger pre.can_reject(s, e)]
        post.can_reject(s, e) == pre.can_reject(s, e) by {
        if pre.can_reject(s, e) && e != pre.hay().len() {
            let m = choose|m: int| #[trigger] pre.spec_searcher().can_match(e, m);
            assert(post.spec_searcher().can_match(e, m));
        }
        if post.can_reject(s, e) && e != post.hay().len() {
            let m = choose|m: int| #[trigger] post.spec_searcher().can_match(e, m);
            assert(pre.spec_searcher().can_match(e, m));
        }
    }
}

impl<S: Searcher> Searcher for SimplifyingSearcher<S> {
    closed spec fn hay(&self) -> Seq<u8> {
        self.searcher.hay()
    }

    closed spec fn pos(&self) -> int {
        self.index as int
    }

    closed spec fn wf(&self) -> bool {
        &&& self.searcher.wf()
        &&& self.index as int <= self.searcher.pos()
        &&& self.searcher.pos() <= self.searcher.hay().len()
        &&& match self.next_match {
            Some((s, e)) => {
                &&& s as int == self.index as int
                &&& s <= e <= self.searcher.hay().len()
                &&& e as int <= self.searcher.pos()
                &&& self.searcher.can_match(s as int, e as int)
            },
            None => true,
        }
    }

    open spec fn can_match(&self, s: int, e: int) -> bool {
        self.spec_searcher().can_match(s, e)
    }

    open spec fn can_reject(&self, s: int, e: int) -> bool {
        e == self.hay().len() || exists|m: int| #[trigger] self.spec_searcher().can_match(e, m)
    }

    closed spec fn work(&self) -> nat {
        2 * self.searcher.work() + (if self.next_match is Some {
            1nat
        } else {
            0nat
        }) + (if self.index < self.searcher.hay().len() {
            1nat
        } else {
            0nat
        })
    }

    proof fn lemma_wf_pos(&self) {
    }

    fn haystack(&self) -> (h: &[u8]) {
        self.searcher.haystack()
    }

    fn next(&mut self) -> (step: SearchStep)
        ensures
            old(self).spec_next_match() matches Some(m)
                ==> step == SearchStep::Match(m.0, m.1),
            step is Match ==> final(self).spec_next_match() is None,
            step is Done ==> old(self).pos() == old(self).hay().len()
                && old(self).spec_next_match() is None
                && final(self).spec_next_match() is None
                && final(self).spec_searcher().pos() == old(self).hay().len(),
            step matches SearchStep::Reject(s, e) ==> s < e,
            step matches SearchStep::Reject(s, e) ==> ((e as int) < old(self).hay().len()
                ==> (final(self).spec_next_match() matches Some(m) && m.0 == e)),
            step matches SearchStep::Reject(s, e) ==> (final(self).spec_next_match() is None
                ==> e as int == old(self).hay().len()
                    && final(self).spec_searcher().pos() == old(self).hay().len()),
    {
        let taken = self.next_match.take();
        if let Some((start, end)) = taken {
            self.index = end;
            proof {
                lemma_can_reject_frame(*old(self), *self);
            }
            return SearchStep::Match(start, end);
        }

        match self.searcher.next_match() {
            Some((start, end)) => {
                proof {
                    lemma_can_reject_frame(*old(self), *self);
                }
                self.match_step(Range::from_bounds(start, end))
            },
            None => {
                // No further match: one maximal reject covers the tail.
                let len: usize = self.searcher.haystack().len();
                if self.index < len {
                    let from: usize = self.index;
                    self.index = len;
                    proof {
                        lemma_can_reject_frame(*old(self), *self);
                    }
                    return SearchStep::Reject(from, len);
                }

                proof {
                    lemma_can_reject_frame(*old(self), *self);
                }
                SearchStep::Done
            }
        }
    }
}

} // verus!

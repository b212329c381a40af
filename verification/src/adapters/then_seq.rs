//! Sequential concatenation: matches where a match of the first pattern
//! is immediately followed — same position, no gap — by a match of the
//! second pattern; the reported match spans both.
//!
//! The searcher repeatedly pulls the first child's next match at or after
//! the cursor, then looks for a match of the second child starting exactly
//! where it ends.  One buffer slot keeps a completed match while the gap
//! before it is rejected, and a second slot caches the second child's
//! lookahead, mirroring the alternation's buffering scheme.

use vstd::prelude::*;

use crate::base::literal::{lit_match_at, StrSearcher};
use crate::search::{Pattern, SearchStep, Searcher};

verus! {

/// A pattern matching a match of `first` immediately followed by a match
/// of `second`.
#[derive(Debug, Clone, Copy, PartialEq, Eq)]
pub struct ThenPattern<P, T> {
    first: P,
    second: T,
}

impl<P, T> ThenPattern<P, T> {
    /// The leading pattern.
    pub closed spec fn spec_first(self) -> P {
        self.first
    }

    /// The trailing pattern.
    pub closed spec fn spec_second(self) -> T {
        self.second
    }

    /// Concatenation: `first` immediately followed by `second`.
    pub fn new(first: P, second: T) -> (r: Self)
        ensures
            r.spec_first() == first,
            r.spec_second() == second,
    {
        ThenPattern { first, second }
    }
}

impl<'a, P: Pattern<'a>, T: Pattern<'a>> Pattern<'a> for ThenPattern<P, T> {
    type Searcher = ThenSearcher<P::Searcher, T::Searcher>;

    fn into_searcher(self, haystack: &'a [u8]) -> (s: Self::Searcher)
        ensures
            s.spec_next_match() is None,
            s.spec_cached_second() is None,
            s.spec_first().wf(),
            s.spec_first().pos() == 0,
            s.spec_first().hay() == haystack@,
            s.spec_second().wf(),
            s.spec_second().pos() == 0,
            s.spec_second().hay() == haystack@,
    {
        ThenSearcher {
            first: self.first.into_searcher(haystack),
            second: self.second.into_searcher(haystack),
            index: 0,
            cached_second: None,
            next_match: None,
        }
    }
}

/// The searcher of a [`ThenPattern`]: reports the fused spans and rejects
/// everything in between.
#[derive(Debug, Clone, Copy, PartialEq, Eq)]
pub struct ThenSearcher<S, T> {
    first: S,
    second: T,
    index: usize,
    cached_second: Option<(usize, usize)>,
    next_match: Option<(usize, usize)>,
}


/// Transfers the concatenation's candidate predicates across an update
/// of the searcher state that preserves the haystack and both children's
/// candidate-match predicates.
proof fn lemma_can_match_frame<S: Searcher, T: Searcher>(
    pre: ThenSearcher<S, T>,
    post: ThenSearcher<S, T>,
)
    requires
        post.hay() == pre.hay(),
        forall|s: int, e: int|
            #![trigger post.spec_first().can_match(s, e)]
            #![trigger pre.spec_first().can_match(s, e)]
            post.spec_first().can_match(s, e) == pre.spec_first().can_match(s, e),
        forall|s: int, e: int|
            #![trigger post.spec_second().can_match(s, e)]
            #![trigger pre.spec_second().can_match(s, e)]
            post.spec_second().can_match(s, e) == pre.spec_second().can_match(s, e),
    ensures
        forall|s: int, e: int|
            #![trigger post.can_match(s, e)] #![trigger pre.can_match(s, e)]
            post.can_match(s, e) == pre.can_match(s, e),
        forall|s: int, e: int|
            #![trigger post.can_reject(s, e)] #![trigger pre.can_reject(s, e)]
            post.can_reject(s, e) == pre.can_reject(s, e),
{
    assert forall|s: int, e: int|
        #![trigger post.can_match(s, e)] #![trigger pre.can_match(s, e)]
        post.can_match(s, e) == pre.can_match(s, e) by {
        if pre.can_match(s, e) {
            let m = choose|m: int|
                #![trigger pre.spec_first().can_match(s, m), pre.spec_second().can_match(m, e)]
                pre.spec_first().can_match(s, m) && pre.spec_second().can_match(m, e);
            assert(post.spec_first().can_match(s, m) && post.spec_second().can_match(m, e));
        }
        if post.can_match(s, e) {
            let m = choose|m: int|
                #![trigger post.spec_first().can_match(s, m), post.spec_second().can_match(m, e)]
                post.spec_first().can_match(s, m) && post.spec_second().can_match(m, e);
            assert(pre.spec_first().can_match(s, m) && pre.spec_second().can_match(m, e));
        }
    }
    assert forall|s: int, e: int|
        #![trigger post.can_reject(s, e)] #![trigger pre.can_reject(s, e)]
        post.can_reject(s, e) == pre.can_reject(s, e) by {
        if pre.can_reject(s, e) && e != pre.hay().len() {
            if exists|m: int| #[trigger] pre.can_match(e, m) {
                let m = choose|m: int| #[trigger] pre.can_match(e, m);
                assert(post.can_match(e, m));
            } else {
                let s0 = choose|s0: int| #[trigger] pre.spec_first().can_match(s0, e);
                assert(post.spec_first().can_match(s0, e));
            }
        }
        if post.can_reject(s, e) && e != post.hay().len() {
            if exists|m: int| #[trigger] post.can_match(e, m) {
                let m = choose|m: int| #[trigger] post.can_match(e, m);
                assert(pre.can_match(e, m));
            } else {
                let s0 = choose|s0: int| #[trigger] post.spec_first().can_match(s0, e);
                assert(pre.spec_first().can_match(s0, e));
            }
        }
    }
}

impl<S: Searcher, T: Searcher> ThenSearcher<S, T> {
    /// The leading searcher.
    pub closed spec fn spec_first(self) -> S {
        self.first
    }

    /// The trailing searcher.
    pub closed spec fn spec_second(self) -> T {
        self.second
    }

    /// The buffered fused match that a just-emitted reject must be
    /// followed by.
    pub closed spec fn spec_next_match(self) -> Option<(usize, usize)> {
        self.next_match
    }

    /// The second child's cached lookahead match.
    pub closed spec fn spec_cached_second(self) -> Option<(usize, usize)> {
        self.cached_second
    }

    /// The cursor: the end of the most recently emitted span.
    pub fn index(&self) -> (r: usize)
        requires
            self.wf(),
        ensures
            r == self.pos(),
    {
        self.index
    }

    /// Pulls the first child's next match that starts at or after the
    /// cursor, dropping any match overtaken by spans already emitted.
    fn next_first_match(&mut self) -> (m: Option<(usize, usize)>)
        requires
            old(self).wf(),
        ensures
            final(self).wf(),
            final(self).hay() == old(self).hay(),
            final(self).pos() == old(self).pos(),
            final(self).spec_second() == old(self).spec_second(),
            final(self).spec_next_match() == old(self).spec_next_match(),
            forall|s: int, e: int|
                #![trigger final(self).spec_first().can_match(s, e)]
                #![trigger old(self).spec_first().can_match(s, e)]
                final(self).spec_first().can_match(s, e)
                    == old(self).spec_first().can_match(s, e),
            forall|s: int, e: int|
                #![trigger final(self).can_match(s, e)] #![trigger old(self).can_match(s, e)]
                final(self).can_match(s, e) == old(self).can_match(s, e),
            forall|s: int, e: int|
                #![trigger final(self).can_reject(s, e)] #![trigger old(self).can_reject(s, e)]
                final(self).can_reject(s, e) == old(self).can_reject(s, e),
            final(self).work() <= old(self).work(),
            m is None ==> final(self).spec_first().pos() == old(self).hay().len(),
            m matches Some((s, e))
                ==> old(self).pos() <= s && s <= e <= old(self).hay().len()
                    && final(self).spec_first().can_match(s as int, e as int)
                    && final(self).spec_first().pos() == e
                    && final(self).work() < old(self).work(),
    {
        loop
            invariant
                self.wf(),
                self.hay() == old(self).hay(),
                self.pos() == old(self).pos(),
                self.spec_second() == old(self).spec_second(),
                self.spec_next_match() == old(self).spec_next_match(),
                self.work() <= old(self).work(),
                forall|s: int, e: int|
                    #![trigger self.spec_first().can_match(s, e)]
                    #![trigger old(self).spec_first().can_match(s, e)]
                    self.spec_first().can_match(s, e)
                        == old(self).spec_first().can_match(s, e),
                forall|s: int, e: int|
                    #![trigger self.can_match(s, e)] #![trigger old(self).can_match(s, e)]
                    self.can_match(s, e) == old(self).can_match(s, e),
                forall|s: int, e: int|
                    #![trigger self.can_reject(s, e)] #![trigger old(self).can_reject(s, e)]
                    self.can_reject(s, e) == old(self).can_reject(s, e),
            decreases self.spec_first().work(),
        {
            let ghost pre = *self;
            match self.first.next_match() {
                None => {
                    proof {
                        lemma_can_match_frame(pre, *self);
                    }
                    return None;
                }
                Some((s, e)) => {
                    proof {
                        lemma_can_match_frame(pre, *self);
                    }
                    if s >= self.index {
                        return Some((s, e));
                    }
                }
            }
        }
    }

    /// Returns the currently valid match of the second child: the cached
    /// one if it is still usable, else freshly pulled matches until one
    /// ends strictly after `after`.
    fn next_second_match(&mut self, after: usize) -> (m: Option<(usize, usize)>)
        requires
            old(self).wf(),
        ensures
            final(self).wf(),
            final(self).hay() == old(self).hay(),
            final(self).pos() == old(self).pos(),
            final(self).spec_first() == old(self).spec_first(),
            final(self).spec_next_match() == old(self).spec_next_match(),
            forall|s: int, e: int|
                #![trigger final(self).spec_second().can_match(s, e)]
                #![trigger old(self).spec_second().can_match(s, e)]
                final(self).spec_second().can_match(s, e)
                    == old(self).spec_second().can_match(s, e),
            forall|s: int, e: int|
                #![trigger final(self).can_match(s, e)] #![trigger old(self).can_match(s, e)]
                final(self).can_match(s, e) == old(self).can_match(s, e),
            forall|s: int, e: int|
                #![trigger final(self).can_reject(s, e)] #![trigger old(self).can_reject(s, e)]
                final(self).can_reject(s, e) == old(self).can_reject(s, e),
            final(self).work() <= old(self).work(),
            m is None ==> final(self).spec_second().pos() == old(self).hay().len(),
            m matches Some((s, e))
                ==> s <= e <= old(self).hay().len()
                    && e >= after
                    && final(self).spec_second().can_match(s as int, e as int),
    {
        let cached: Option<(usize, usize)> = self.cached_second;
        let ghost entry = *self;
        let current: Option<(usize, usize)> = match cached {
            Some(v) => Some(v),
            None => self.second.next_match(),
        };
        proof {
            lemma_can_match_frame(entry, *self);
        }

        if let Some((s, e)) = current {
            if e < after || s < after {
                // The candidate ends too early to follow the first match:
                // pull until one reaches past `after`.
                loop
                    invariant
                        self.wf(),
                        self.hay() == old(self).hay(),
                        self.pos() == old(self).pos(),
                        self.spec_first() == old(self).spec_first(),
                        self.spec_next_match() == old(self).spec_next_match(),
                        self.work() <= old(self).work(),
                        forall|s2: int, e2: int|
                            #![trigger self.spec_second().can_match(s2, e2)]
                            #![trigger old(self).spec_second().can_match(s2, e2)]
                            self.spec_second().can_match(s2, e2)
                                == old(self).spec_second().can_match(s2, e2),
                        forall|s2: int, e2: int|
                            #![trigger self.can_match(s2, e2)]
                            #![trigger old(self).can_match(s2, e2)]
                            self.can_match(s2, e2) == old(self).can_match(s2, e2),
                        forall|s2: int, e2: int|
                            #![trigger self.can_reject(s2, e2)]
                            #![trigger old(self).can_reject(s2, e2)]
                            self.can_reject(s2, e2) == old(self).can_reject(s2, e2),
                    decreases self.spec_second().work(),
                {
                    let ghost pre = *self;
                    match self.second.next_match() {
                        None => {
                            proof {
                                lemma_can_match_frame(pre, *self);
                            }
                            return None;
                        }
                        Some((s2, e2)) => {
                            proof {
                                lemma_can_match_frame(pre, *self);
                            }
                            if e2 > after {
                                let ghost mid = *self;
                                self.cached_second = Some((s2, e2));
                                proof {
                                    lemma_can_match_frame(mid, *self);
                                }
                                return Some((s2, e2));
                            }
                        }
                    }
                }
            } else {
                let ghost mid = *self;
                self.cached_second = Some((s, e));
                proof {
                    lemma_can_match_frame(mid, *self);
                }
                return Some((s, e));
            }
        }

        None
    }

    /// Rejects everything from the cursor to the end of the haystack.
    fn reject_remaining(&mut self) -> (step: SearchStep)
        requires
            old(self).wf(),
            old(self).spec_next_match() is None,
            old(self).pos() < old(self).hay().len(),
        ensures
            final(self).wf(),
            final(self).hay() == old(self).hay(),
            crate::search::step_ok(
                old(self).pos(),
                final(self).pos(),
                old(self).hay().len() as int,
                step,
            ),
            step is Reject,
            step matches SearchStep::Reject(s2, e2)
                ==> e2 as int == old(self).hay().len()
                    && final(self).can_reject(s2 as int, e2 as int),
            final(self).spec_next_match() is None,
            final(self).spec_first() == old(self).spec_first(),
            final(self).spec_second() == old(self).spec_second(),
            forall|s: int, e: int|
                #![trigger final(self).can_match(s, e)] #![trigger old(self).can_match(s, e)]
                final(self).can_match(s, e) == old(self).can_match(s, e),
            forall|s: int, e: int|
                #![trigger final(self).can_reject(s, e)] #![trigger old(self).can_reject(s, e)]
                final(self).can_reject(s, e) == old(self).can_reject(s, e),
            final(self).work() < old(self).work(),
    {
        let from: usize = self.index;
        let len: usize = self.first.haystack().len();
        self.index = len;
        proof {
            lemma_can_match_frame(*old(self), *self);
        }
        SearchStep::Reject(from, len)
    }
}

impl<S: Searcher, T: Searcher> Searcher for ThenSearcher<S, T> {
    closed spec fn hay(&self) -> Seq<u8> {
        self.first.hay()
    }

    closed spec fn pos(&self) -> int {
        self.index as int
    }

    closed spec fn wf(&self) -> bool {
        &&& self.first.wf()
        &&& self.second.wf()
        &&& self.second.hay() == self.first.hay()
        &&& self.index <= self.first.hay().len()
        &&& match self.next_match {
            Some((s, e)) => {
                &&& s as int == self.index as int
                &&& s <= e <= self.first.hay().len()
                &&& self.can_match(s as int, e as int)
            },
            None => true,
        }
        &&& match self.cached_second {
            Some((s, e)) => {
                s <= e <= self.first.hay().len() && self.second.can_match(s as int, e as int)
            },
            None => true,
        }
    }

    open spec fn can_match(&self, s: int, e: int) -> bool {
        exists|m: int|
            #![trigger self.spec_first().can_match(s, m), self.spec_second().can_match(m, e)]
            self.spec_first().can_match(s, m) && self.spec_second().can_match(m, e)
    }

    open spec fn can_reject(&self, s: int, e: int) -> bool {
        ||| e == self.hay().len()
        ||| exists|m: int| #[trigger] self.can_match(e, m)
        ||| exists|s0: int| #[trigger] self.spec_first().can_match(s0, e)
    }

    closed spec fn work(&self) -> nat {
        2 * (self.first.work() + self.second.work()) + (if self.cached_second is Some {
            2nat
        } else {
            0nat
        }) + (if self.next_match is Some {
            1nat
        } else {
            0nat
        }) + (if self.index < self.first.hay().len() {
            1nat
        } else {
            0nat
        })
    }

    proof fn lemma_wf_pos(&self) {
    }

    fn haystack(&self) -> (h: &[u8]) {
        self.first.haystack()
    }

    fn next(&mut self) -> (step: SearchStep)
        ensures
            old(self).spec_next_match() matches Some(m)
                ==> step == SearchStep::Match(m.0, m.1),
            step is Match ==> final(self).spec_next_match() is None,
            (step is Done) <==> (old(self).pos() == old(self).hay().len()
                && old(self).spec_next_match() is None),
            step is Done ==> final(self).spec_next_match() is None,
            step matches SearchStep::Reject(s, e)
                ==> (final(self).spec_next_match() matches Some(m) ==> m.0 == e),
            step matches SearchStep::Reject(s, e) ==> (e as int == old(self).hay().len()
                ==> final(self).spec_first().pos() == old(self).hay().len()
                    || final(self).spec_second().pos() == old(self).hay().len()),
    {
        // A fused match buffered behind a gap reject is emitted first.
        let taken = self.next_match.take();
        if let Some((start, end)) = taken {
            self.index = end;
            proof {
                lemma_can_match_frame(*old(self), *self);
                assert(self.can_match(start as int, end as int));
            }
            return SearchStep::Match(start, end);
        }

        let len: usize = self.first.haystack().len();
        if self.index >= len {
            return SearchStep::Done;
        }

        match self.next_first_match() {
            Some((start, end)) => {
                match self.next_second_match(end) {
                    Some((tstart, tend)) => {
                        if end == tstart {
                            proof {
                                assert(self.spec_first().can_match(start as int, end as int)
                                    && self.spec_second().can_match(end as int, tend as int));
                                assert(self.can_match(start as int, tend as int));
                            }
                            if self.index < start {
                                let ghost mid = *self;
                                self.next_match = Some((start, tend));
                                let from: usize = self.index;
                                self.index = start;
                                proof {
                                    lemma_can_match_frame(mid, *self);
                                }
                                return SearchStep::Reject(from, start);
                            }

                            let ghost mid = *self;
                            self.index = tend;
                            proof {
                                lemma_can_match_frame(mid, *self);
                                assert(self.can_match(start as int, tend as int));
                            }
                            SearchStep::Match(start, tend)
                        } else {
                            // The second pattern cannot follow this first
                            // match: reject through its end and rescan.
                            let ghost mid = *self;
                            let from: usize = self.index;
                            self.index = end;
                            proof {
                                lemma_can_match_frame(mid, *self);
                            }
                            SearchStep::Reject(from, end)
                        }
                    }
                    None => self.reject_remaining(),
                }
            }
            None => self.reject_remaining(),
        }
    }
}

/// Law (concatenation equivalence): a sequential concatenation of two
/// literal searchers admits exactly the matches of the single literal
/// searcher for the concatenated needle — `"a"` followed by `"b"` matches
/// precisely where `"ab"` does.
pub proof fn lemma_concat_literals(
    t: ThenSearcher<StrSearcher, StrSearcher>,
    lit: StrSearcher,
    s: int,
    e: int,
)
    requires
        t.spec_first().hay() == lit.hay(),
        t.spec_second().hay() == lit.hay(),
        lit.spec_needle() == t.spec_first().spec_needle() + t.spec_second().spec_needle(),
    ensures
        t.can_match(s, e) == lit.can_match(s, e),
{
    let h = lit.hay();
    let u = t.spec_first().spec_needle();
    let v = t.spec_second().spec_needle();

    if t.can_match(s, e) {
        let m = choose|m: int|
            #![trigger t.spec_first().can_match(s, m), t.spec_second().can_match(m, e)]
            t.spec_first().can_match(s, m) && t.spec_second().can_match(m, e);
        assert(m == s + u.len());
        assert(e == m + v.len());
        assert(h.subrange(s, s + u.len()) == u);
        assert(h.subrange(m, m + v.len()) == v);
        assert forall|i: int| 0 <= i < u.len() + v.len()
            implies h.subrange(s, e)[i] == (u + v)[i] by {
            if i < u.len() {
                assert(h.subrange(s, s + u.len())[i] == h[s + i]);
            } else {
                assert(h.subrange(m, m + v.len())[i - u.len()] == h[m + (i - u.len())]);
            }
        }
        assert(h.subrange(s, e) =~= u + v);
        assert(lit.can_match(s, e));
    }

    if lit.can_match(s, e) {
        assert(h.subrange(s, s + u.len() + v.len()) == u + v);
        let m = s + u.len();
        assert forall|i: int| 0 <= i < u.len() implies h.subrange(s, m)[i] == u[i] by {
            assert(h.subrange(s, s + u.len() + v.len())[i] == (u + v)[i]);
        }
        assert(h.subrange(s, m) =~= u);
        assert forall|i: int| 0 <= i < v.len() implies h.subrange(m, e)[i] == v[i] by {
            assert(h.subrange(s, s + u.len() + v.len())[u.len() + i] == (u + v)[u.len() + i]);
        }
        assert(h.subrange(m, e) =~= v);
        assert(t.spec_first().can_match(s, m) && t.spec_second().can_match(m, e));
        assert(t.can_match(s, e));
    }
}

} // verus!

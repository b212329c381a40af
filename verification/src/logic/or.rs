//! Alternation: merges the matches of two searchers over one haystack,
//! scanning left to right and resolving overlapping candidates with a
//! tie-break bias.
//!
//! Each child is consulted only through its next-match primitive.  One
//! candidate per child may be cached from the previous step so that a
//! match read but not consumed is not lost, and a pending match is
//! buffered whenever a gap has to be rejected first; that buffering is how
//! the combinator re-establishes per-step contiguity from children that
//! report matches rather than full partitions.

use vstd::prelude::*;

use crate::search::{Pattern, SearchStep, Searcher};
use crate::utils::Range;

verus! {

/// Which of two conflicting candidate matches the alternation keeps.
#[derive(Debug, Copy, Clone, PartialEq, Eq, Structural, Hash)]
pub enum ToMatch {
    /// Keep the left branch's candidate.
    Left,
    /// Keep the right branch's candidate.
    Right,
}

/// The tie-break: the candidate a bias selects from a conflicting pair.
pub open spec fn spec_pick(bias: ToMatch, a: (usize, usize), b: (usize, usize)) -> (usize, usize) {
    match bias {
        ToMatch::Left => a,
        ToMatch::Right => b,
    }
}

/// Law (or-family equivalence, tie-break side): on equal candidates the
/// bias is immaterial — both biases select the same match, so an
/// alternation of a pattern with itself degenerates to that pattern's own
/// matches step for step.
pub proof fn lemma_pick_equal(a: (usize, usize), b: (usize, usize))
    requires
        a == b,
    ensures
        spec_pick(ToMatch::Left, a, b) == spec_pick(ToMatch::Right, a, b),
{
}

/// Law (or-family equivalence, predicate side): an alternation of a
/// pattern with itself admits exactly the matches of that pattern alone.
pub proof fn lemma_or_self_matches<A: Searcher, B: Searcher>(o: OrSearcher<A, B>)
    requires
        forall|s: int, e: int|
            #![trigger o.spec_a().can_match(s, e)] #![trigger o.spec_b().can_match(s, e)]
            o.spec_a().can_match(s, e) == o.spec_b().can_match(s, e),
    ensures
        forall|s: int, e: int|
            #![trigger o.can_match(s, e)]
            o.can_match(s, e) == o.spec_a().can_match(s, e),
{
}

/// Alternation biased towards its left branch.
#[derive(Debug, Clone, Copy, PartialEq, Eq)]
pub struct LOrPattern<A, B> {
    inner: OrPattern<A, B>,
}

impl<A, B> LOrPattern<A, B> {
    /// The underlying alternation.
    pub closed spec fn spec_inner(self) -> OrPattern<A, B> {
        self.inner
    }

    /// Alternation of `a` and `b`, preferring `a` on conflicts.
    pub fn new(a: A, b: B) -> (r: Self)
        ensures
            r.spec_inner().spec_a() == a,
            r.spec_inner().spec_b() == b,
            r.spec_inner().spec_bias() == ToMatch::Left,
    {
        LOrPattern { inner: OrPattern::new(a, b, ToMatch::Left) }
    }
}

impl<'a, A: Pattern<'a>, B: Pattern<'a>> Pattern<'a> for LOrPattern<A, B> {
    type Searcher = OrSearcher<A::Searcher, B::Searcher>;

    fn into_searcher(self, haystack: &'a [u8]) -> (s: Self::Searcher)
        ensures
            s.spec_bias() == self.spec_inner().spec_bias(),
            s.spec_next_match() is None,
            s.spec_cached() is None,
            s.spec_a().wf(),
            s.spec_a().pos() == 0,
            s.spec_a().hay() == haystack@,
            s.spec_b().wf(),
            s.spec_b().pos() == 0,
            s.spec_b().hay() == haystack@,
    {
        self.inner.into_searcher(haystack)
    }
}

/// Alternation biased towards its right branch.
#[derive(Debug, Clone, Copy, PartialEq, Eq)]
pub struct ROrPattern<A, B> {
    inner: OrPattern<A, B>,
}

impl<A, B> ROrPattern<A, B> {
    /// The underlying alternation.
    pub closed spec fn spec_inner(self) -> OrPattern<A, B> {
        self.inner
    }

    /// Alternation of `a` and `b`, preferring `b` on conflicts.
    pub fn new(a: A, b: B) -> (r: Self)
        ensures
            r.spec_inner().spec_a() == a,
            r.spec_inner().spec_b() == b,
            r.spec_inner().spec_bias() == ToMatch::Right,
    {
        ROrPattern { inner: OrPattern::new(a, b, ToMatch::Right) }
    }
}

impl<'a, A: Pattern<'a>, B: Pattern<'a>> Pattern<'a> for ROrPattern<A, B> {
    type Searcher = OrSearcher<A::Searcher, B::Searcher>;

    fn into_searcher(self, haystack: &'a [u8]) -> (s: Self::Searcher)
        ensures
            s.spec_bias() == self.spec_inner().spec_bias(),
            s.spec_next_match() is None,
            s.spec_cached() is None,
            s.spec_a().wf(),
            s.spec_a().pos() == 0,
            s.spec_a().hay() == haystack@,
            s.spec_b().wf(),
            s.spec_b().pos() == 0,
            s.spec_b().hay() == haystack@,
    {
        self.inner.into_searcher(haystack)
    }
}

/// Alternation of two patterns with an explicit tie-break bias.
#[derive(Debug, Clone, Copy, PartialEq, Eq)]
pub struct OrPattern<A, B> {
    a: A,
    b: B,
    bias: ToMatch,
}

impl<A, B> OrPattern<A, B> {
    /// The left branch.
    pub closed spec fn spec_a(self) -> A {
        self.a
    }

    /// The right branch.
    pub closed spec fn spec_b(self) -> B {
        self.b
    }

    /// The tie-break bias.
    pub closed spec fn spec_bias(self) -> ToMatch {
        self.bias
    }

    /// Alternation of `a` and `b`, resolving conflicts with `bias`.
    pub fn new(a: A, b: B, bias: ToMatch) -> (r: Self)
        ensures
            r.spec_a() == a,
            r.spec_b() == b,
            r.spec_bias() == bias,
    {
        OrPattern { a, b, bias }
    }
}

impl<'a, A: Pattern<'a>, B: Pattern<'a>> Pattern<'a> for OrPattern<A, B> {
    type Searcher = OrSearcher<A::Searcher, B::Searcher>;

    fn into_searcher(self, haystack: &'a [u8]) -> (s: Self::Searcher)
        ensures
            s.spec_bias() == self.spec_bias(),
            s.spec_next_match() is None,
            s.spec_cached() is None,
            s.spec_a().wf(),
            s.spec_a().pos() == 0,
            s.spec_a().hay() == haystack@,
            s.spec_b().wf(),
            s.spec_b().pos() == 0,
            s.spec_b().hay() == haystack@,
    {
        OrSearcher {
            a: self.a.into_searcher(haystack),
            b: self.b.into_searcher(haystack),
            index: 0,
            next_match: None,
            cached_match: None,
            bias: self.bias,
            pulled: Ghost(None),
        }
    }
}

/// A candidate match read from one child but not yet consumed.
#[derive(Debug, Clone, Copy, PartialEq, Eq, Structural)]
pub enum CachedMatch {
    /// A candidate of the left child.
    A(usize, usize),
    /// A candidate of the right child.
    B(usize, usize),
}

/// Two candidate spans conflict: they overlap, coincide, or start at the
/// same position with one of them zero-width.  The bias then selects
/// exactly one of them.
pub open spec fn conflicting(a: (usize, usize), b: (usize, usize)) -> bool {
    (Range { start: a.0, end: a.1 }).spec_intersect(Range { start: b.0, end: b.1 }) is Some
        || a.0 == b.0
}

/// The searcher of an alternation: reports a match wherever either child
/// matches, resolving overlapping (or coinciding) candidates with the
/// bias, and rejecting the gaps in between.
#[derive(Clone, Copy)]
pub struct OrSearcher<A, B> {
    a: A,
    b: B,
    index: usize,
    next_match: Option<(usize, usize)>,
    cached_match: Option<CachedMatch>,
    bias: ToMatch,
    /// The candidate pair pulled by the most recent step, recorded when
    /// both children had one: what the conflict rule was applied to.
    pulled: Ghost<Option<((usize, usize), (usize, usize))>>,
}

/// Pulls the next usable candidate of one child: the cached candidate if
/// one is at hand, else freshly pulled matches, dropping any that start
/// before the cursor `index` — a discarded conflict can leave a child
/// whose later matches begin inside spans already emitted.
fn next_pending<S: Searcher>(
    searcher: &mut S,
    cached: Option<(usize, usize)>,
    index: usize,
) -> (m: Option<(usize, usize)>)
    requires
        old(searcher).wf(),
        cached matches Some((s, e))
            ==> s <= e <= old(searcher).hay().len()
                && old(searcher).can_match(s as int, e as int),
    ensures
        final(searcher).wf(),
        final(searcher).hay() == old(searcher).hay(),
        forall|s: int, e: int|
            #![trigger final(searcher).can_match(s, e)] #![trigger old(searcher).can_match(s, e)]
                final(searcher).can_match(s, e) == old(searcher).can_match(s, e),
        forall|s: int, e: int|
            #![trigger final(searcher).can_reject(s, e)] #![trigger old(searcher).can_reject(s, e)]
                final(searcher).can_reject(s, e) == old(searcher).can_reject(s, e),
        final(searcher).work() <= old(searcher).work(),
        m matches Some((s, e))
            ==> index <= s && s <= e <= old(searcher).hay().len()
                && final(searcher).can_match(s as int, e as int),
        m is None ==> final(searcher).pos() == old(searcher).hay().len(),
        m is Some && cached is None ==> final(searcher).work() < old(searcher).work(),
{
    let mut m: Option<(usize, usize)> = match cached {
        Some(v) => Some(v),
        None => searcher.next_match(),
    };

    loop
        invariant
            searcher.wf(),
            searcher.hay() == old(searcher).hay(),
            searcher.work() <= old(searcher).work(),
            forall|s: int, e: int|
                #[trigger] searcher.can_match(s, e) == old(searcher).can_match(s, e),
            forall|s: int, e: int|
                #[trigger] searcher.can_reject(s, e) == old(searcher).can_reject(s, e),
            m matches Some((s, e))
                ==> s <= e <= searcher.hay().len() && searcher.can_match(s as int, e as int),
            m is None ==> searcher.pos() == searcher.hay().len(),
            m is Some && cached is None ==> searcher.work() < old(searcher).work(),
        decreases searcher.work(),
    {
        match m {
            None => {
                return None;
            }
            Some((s, e)) => {
                if s >= index {
                    return Some((s, e));
                }
                match searcher.next_match() {
                    None => {
                        return None;
                    }
                    Some(v) => {
                        m = Some(v);
                    }
                }
            }
        }
    }
}

/// Transfers the alternation's candidate-reject predicate across an
/// update of the searcher state that preserves the haystack and the
/// candidate-match predicate.
proof fn lemma_or_can_reject_frame<A: Searcher, B: Searcher>(
    pre: OrSearcher<A, B>,
    post: OrSearcher<A, B>,
)
    requires
        post.hay() == pre.hay(),
        forall|s: int, e: int|
            #![trigger post.can_match(s, e)] #![trigger pre.can_match(s, e)]
            post.can_match(s, e) == pre.can_match(s, e),
    ensures
        forall|s: int, e: int|
            #![trigger post.can_reject(s, e)] #![trigger pre.can_reject(s, e)]
            post.can_reject(s, e) == pre.can_reject(s, e),
{
    assert forall|s: int, e: int|
        #![trigger post.can_reject(s, e)] #![trigger pre.can_reject(s, e)]
        post.can_reject(s, e) == pre.can_reject(s, e) by {
        if pre.can_reject(s, e) && e != pre.hay().len() {
            let m = choose|m: int| #[trigger] pre.can_match(e, m);
            assert(post.can_match(e, m));
        }
        if post.can_reject(s, e) && e != post.hay().len() {
            let m = choose|m: int| #[trigger] post.can_match(e, m);
            assert(pre.can_match(e, m));
        }
    }
}

impl<A: Searcher, B: Searcher> OrSearcher<A, B> {
    /// The left child.
    pub closed spec fn spec_a(self) -> A {
        self.a
    }

    /// The right child.
    pub closed spec fn spec_b(self) -> B {
        self.b
    }

    /// The tie-break bias.
    pub closed spec fn spec_bias(self) -> ToMatch {
        self.bias
    }

    /// The buffered match that a just-emitted reject must be followed by.
    pub closed spec fn spec_next_match(self) -> Option<(usize, usize)> {
        self.next_match
    }

    /// The candidate read from one child but not yet consumed.
    pub closed spec fn spec_cached(self) -> Option<CachedMatch> {
        self.cached_match
    }

    /// The candidate pair the most recent step pulled, when both children
    /// offered one.
    pub closed spec fn spec_pulled(self) -> Option<((usize, usize), (usize, usize))> {
        self.pulled@
    }

    /// The cursor: the end of the most recently emitted span.
    pub fn index(&self) -> (r: usize)
        requires
            self.wf(),
        ensures
            r == self.pos(),
    {
        self.index
    }

    /// Pulls the next pending candidate from each child, serving one side
    /// from the cache when the previous step left a candidate unconsumed.
    fn next_matches(&mut self) -> (r: (Option<(usize, usize)>, Option<(usize, usize)>))
        requires
            old(self).wf(),
            old(self).spec_next_match() is None,
        ensures
            final(self).wf(),
            final(self).hay() == old(self).hay(),
            final(self).pos() == old(self).pos(),
            final(self).spec_bias() == old(self).spec_bias(),
            final(self).spec_next_match() is None,
            forall|s: int, e: int|
                #![trigger final(self).can_match(s, e)] #![trigger old(self).can_match(s, e)]
                final(self).can_match(s, e) == old(self).can_match(s, e),
            forall|s: int, e: int|
                #![trigger final(self).can_reject(s, e)] #![trigger old(self).can_reject(s, e)]
                final(self).can_reject(s, e) == old(self).can_reject(s, e),
            r.0 matches Some((s, e))
                ==> old(self).pos() <= s && s <= e <= old(self).hay().len()
                    && final(self).spec_a().can_match(s as int, e as int),
            r.1 matches Some((s, e))
                ==> old(self).pos() <= s && s <= e <= old(self).hay().len()
                    && final(self).spec_b().can_match(s as int, e as int),
            r.0 is None ==> final(self).spec_a().pos() == old(self).hay().len(),
            r.1 is None ==> final(self).spec_b().pos() == old(self).hay().len(),
            r.0 matches Some(a) ==> (r.1 matches Some(b)
                ==> final(self).spec_pulled() == Some((a, b))),
            r.0 is None || r.1 is None ==> final(self).spec_pulled() is None,
            final(self).spec_cached() is None,
            final(self).work() + pair_weight(r) <= old(self).work(),
    {
        let cached = self.cached_match.take();
        let r = match cached {
            Some(CachedMatch::A(s, e)) => {
                let am = next_pending(&mut self.a, Some((s, e)), self.index);
                let bm = next_pending(&mut self.b, None, self.index);
                (am, bm)
            }
            Some(CachedMatch::B(s, e)) => {
                let am = next_pending(&mut self.a, None, self.index);
                let bm = next_pending(&mut self.b, Some((s, e)), self.index);
                (am, bm)
            }
            None => {
                let am = next_pending(&mut self.a, None, self.index);
                let bm = next_pending(&mut self.b, None, self.index);
                (am, bm)
            }
        };
        self.pulled = Ghost(match r {
            (Some(a), Some(b)) => Some((a, b)),
            _ => None,
        });
        proof {
            lemma_or_can_reject_frame(*old(self), *self);
        }
        r
    }

    /// Emits the match `[start, end)`: directly when the cursor already
    /// stands at its start, otherwise rejecting the gap first and
    /// buffering the match for the immediately following step.
    fn match_step(&mut self, start: usize, end: usize) -> (step: SearchStep)
        requires
            old(self).wf(),
            old(self).spec_next_match() is None,
            old(self).pos() <= start,
            start <= end <= old(self).hay().len(),
            old(self).can_match(start as int, end as int),
        ensures
            final(self).wf(),
            final(self).hay() == old(self).hay(),
            final(self).spec_bias() == old(self).spec_bias(),
            forall|s: int, e: int|
                #![trigger final(self).can_match(s, e)] #![trigger old(self).can_match(s, e)]
                final(self).can_match(s, e) == old(self).can_match(s, e),
            forall|s: int, e: int|
                #![trigger final(self).can_reject(s, e)] #![trigger old(self).can_reject(s, e)]
                final(self).can_reject(s, e) == old(self).can_reject(s, e),
            crate::search::step_ok(
                old(self).pos(),
                final(self).pos(),
                old(self).hay().len() as int,
                step,
            ),
            !(step is Done),
            step matches SearchStep::Match(s, e)
                ==> final(self).can_match(s as int, e as int),
            step is Match ==> step == SearchStep::Match(start, end)
                && final(self).spec_next_match() is None,
            step matches SearchStep::Reject(s2, e2)
                ==> s2 < e2 && e2 == start
                    && final(self).spec_next_match() == Some((start, end))
                    && final(self).can_reject(s2 as int, e2 as int),
            final(self).spec_a() == old(self).spec_a(),
            final(self).spec_b() == old(self).spec_b(),
            final(self).spec_cached() == old(self).spec_cached(),
            final(self).spec_pulled() == old(self).spec_pulled(),
            final(self).work() <= old(self).work() + 1,
    {
        if self.index < start {
            self.next_match = Some((start, end));
            let from: usize = self.index;
            self.index = start;
            proof {
                lemma_or_can_reject_frame(*old(self), *self);
                assert(self.can_match(start as int, end as int));
                assert(self.can_reject(from as int, start as int));
            }
            return SearchStep::Reject(from, start);
        }

        self.index = end;
        proof {
            lemma_or_can_reject_frame(*old(self), *self);
        }
        SearchStep::Match(start, end)
    }

    /// Rejects everything from the cursor up to `end`.
    fn reject_to(&mut self, end: usize) -> (step: SearchStep)
        requires
            old(self).wf(),
            old(self).spec_next_match() is None,
            old(self).pos() <= end,
            end <= old(self).hay().len(),
        ensures
            final(self).wf(),
            final(self).hay() == old(self).hay(),
            final(self).spec_bias() == old(self).spec_bias(),
            final(self).spec_next_match() == old(self).spec_next_match(),
            forall|s: int, e: int|
                #![trigger final(self).can_match(s, e)] #![trigger old(self).can_match(s, e)]
                final(self).can_match(s, e) == old(self).can_match(s, e),
            forall|s: int, e: int|
                #![trigger final(self).can_reject(s, e)] #![trigger old(self).can_reject(s, e)]
                final(self).can_reject(s, e) == old(self).can_reject(s, e),
            crate::search::step_ok(
                old(self).pos(),
                final(self).pos(),
                old(self).hay().len() as int,
                step,
            ),
            step is Reject,
            step matches SearchStep::Reject(s2, e2)
                ==> e2 == end && (end as int == old(self).hay().len()
                    ==> final(self).can_reject(s2 as int, e2 as int)),
            final(self).spec_a() == old(self).spec_a(),
            final(self).spec_b() == old(self).spec_b(),
            final(self).spec_cached() == old(self).spec_cached(),
            final(self).spec_pulled() == old(self).spec_pulled(),
            final(self).work() <= old(self).work(),
            end as int == old(self).hay().len() && old(self).pos() < end
                ==> final(self).work() < old(self).work(),
    {
        let from: usize = self.index;
        self.index = end;
        proof {
            lemma_or_can_reject_frame(*old(self), *self);
        }
        SearchStep::Reject(from, end)
    }
}

/// The termination weight carried by a pair of pulled candidates.
spec fn pair_weight(r: (Option<(usize, usize)>, Option<(usize, usize)>)) -> nat {
    (if r.0 is Some {
        2nat
    } else {
        0nat
    }) + (if r.1 is Some {
        2nat
    } else {
        0nat
    })
}

impl<A: Searcher, B: Searcher> Searcher for OrSearcher<A, B> {
    closed spec fn hay(&self) -> Seq<u8> {
        self.a.hay()
    }

    closed spec fn pos(&self) -> int {
        self.index as int
    }

    closed spec fn wf(&self) -> bool {
        &&& self.a.wf()
        &&& self.b.wf()
        &&& self.b.hay() == self.a.hay()
        &&& self.index <= self.a.hay().len()
        &&& match self.next_match {
            Some((s, e)) => {
                &&& s as int == self.index as int
                &&& s <= e <= self.a.hay().len()
                &&& (self.a.can_match(s as int, e as int) || self.b.can_match(s as int, e as int))
            },
            None => true,
        }
        &&& match self.cached_match {
            Some(CachedMatch::A(s, e)) => {
                s <= e <= self.a.hay().len() && self.a.can_match(s as int, e as int)
            },
            Some(CachedMatch::B(s, e)) => {
                s <= e <= self.a.hay().len() && self.b.can_match(s as int, e as int)
            },
            None => true,
        }
    }

    open spec fn can_match(&self, s: int, e: int) -> bool {
        self.spec_a().can_match(s, e) || self.spec_b().can_match(s, e)
    }

    open spec fn can_reject(&self, s: int, e: int) -> bool {
        e == self.hay().len() || exists|m: int| #[trigger] self.can_match(e, m)
    }

    closed spec fn work(&self) -> nat {
        2 * (self.a.work() + self.b.work()) + (if self.cached_match is Some {
            2nat
        } else {
            0nat
        }) + (if self.next_match is Some {
            1nat
        } else {
            0nat
        }) + (if self.index < self.a.hay().len() {
            1nat
        } else {
            0nat
        })
    }

    proof fn lemma_wf_pos(&self) {
    }

    fn haystack(&self) -> (h: &[u8]) {
        self.a.haystack()
    }

    fn next(&mut self) -> (step: SearchStep)
        ensures
            final(self).spec_bias() == old(self).spec_bias(),
            old(self).spec_next_match() matches Some(m)
                ==> step == SearchStep::Match(m.0, m.1),
            step is Match ==> final(self).spec_next_match() is None,
            (step is Done) <==> (old(self).pos() == old(self).hay().len()
                && old(self).spec_next_match() is None),
            step is Done ==> final(self).spec_next_match() is None,
            step matches SearchStep::Reject(s, e) ==> s < e,
            step matches SearchStep::Reject(s, e) ==> ((e as int) < old(self).hay().len()
                ==> (final(self).spec_next_match() matches Some(m) && m.0 == e)),
            step matches SearchStep::Reject(s, e) ==> (final(self).spec_next_match() is None
                ==> e as int == old(self).hay().len()
                    && final(self).spec_a().pos() == old(self).hay().len()
                    && final(self).spec_b().pos() == old(self).hay().len()),
            final(self).spec_pulled() matches Some(p) ==> ({
                let chosen = if conflicting(p.0, p.1) {
                    spec_pick(final(self).spec_bias(), p.0, p.1)
                } else if p.0.0 < p.1.0 {
                    p.0
                } else {
                    p.1
                };
                &&& (step == SearchStep::Match(chosen.0, chosen.1)
                    || final(self).spec_next_match() == Some(chosen))
                &&& (conflicting(p.0, p.1) ==> final(self).spec_cached() is None)
                &&& (!conflicting(p.0, p.1) ==> final(self).spec_cached() == Some(
                    if p.0.0 < p.1.0 {
                        CachedMatch::B(p.1.0, p.1.1)
                    } else {
                        CachedMatch::A(p.0.0, p.0.1)
                    },
                ))
            }),
    {
        // A pending match buffered behind a gap reject is emitted first.
        let taken = self.next_match.take();
        if let Some((start, end)) = taken {
            self.index = end;
            self.pulled = Ghost(None);
            proof {
                lemma_or_can_reject_frame(*old(self), *self);
            }
            return SearchStep::Match(start, end);
        }

        let len: usize = self.a.haystack().len();
        if self.index >= len {
            self.pulled = Ghost(None);
            proof {
                lemma_or_can_reject_frame(*old(self), *self);
            }
            return SearchStep::Done;
        }

        match self.next_matches() {
            (Some(am), Some(bm)) => {
                let ra = Range::from_bounds(am.0, am.1);
                let rb = Range::from_bounds(bm.0, bm.1);

                // Overlapping or coinciding candidates conflict, and so do
                // candidates starting at the same position where one is
                // zero-width: the bias selects exactly one; the other is
                // discarded.
                if ra.intersect(rb).is_some() || ra.start() == rb.start() {
                    let picked = match self.bias {
                        ToMatch::Left => am,
                        ToMatch::Right => bm,
                    };
                    proof {
                        assert(picked == spec_pick(self.bias, am, bm));
                    }
                    self.match_step(picked.0, picked.1)
                } else if ra.start() < rb.start() {
                    // Disjoint: emit the earlier candidate now, keep the
                    // later one for the following step.
                    let ghost mid = *self;
                    self.cached_match = Some(CachedMatch::B(bm.0, bm.1));
                    proof {
                        lemma_or_can_reject_frame(mid, *self);
                    }
                    self.match_step(am.0, am.1)
                } else {
                    let ghost mid = *self;
                    self.cached_match = Some(CachedMatch::A(am.0, am.1));
                    proof {
                        lemma_or_can_reject_frame(mid, *self);
                    }
                    self.match_step(bm.0, bm.1)
                }
            }
            (Some(am), None) => self.match_step(am.0, am.1),
            (None, Some(bm)) => self.match_step(bm.0, bm.1),
            (None, None) => {
                // Neither child has a pending match: reject the remainder.
                self.reject_to(len)
            }
        }
    }
}

} // verus!

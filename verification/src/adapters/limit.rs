//! Caps the total number of matches a searcher reports: the first `n`
//! matches pass through, every later match is reported as a reject.

use vstd::prelude::*;

use crate::search::{Pattern, SearchStep, Searcher};

verus! {

/// A pattern whose searcher reports at most `n` matches.
#[derive(Debug)]
pub struct LimitPattern<P> {
    pattern: P,
    n: usize,
}

impl<P> LimitPattern<P> {
    /// The wrapped pattern.
    pub closed spec fn spec_pattern(self) -> P {
        self.pattern
    }

    /// How many matches are let through.
    pub closed spec fn spec_n(self) -> nat {
        self.n as nat
    }

    /// Wraps `pattern` so that at most `n` matches are reported.
    pub fn new(pattern: P, n: usize) -> (r: Self)
        ensures
            r.spec_pattern() == pattern,
            r.spec_n() == n,
    {
        LimitPattern { pattern, n }
    }
}

impl<'a, P: Pattern<'a>> Pattern<'a> for LimitPattern<P> {
    type Searcher = LimitSearcher<P::Searcher>;

    fn into_searcher(self, haystack: &'a [u8]) -> (s: Self::Searcher)
        ensures
            s.spec_remaining() == self.spec_n(),
            s.spec_searcher().wf(),
            s.spec_searcher().pos() == 0,
            s.spec_searcher().hay() == haystack@,
    {
        LimitSearcher::new(self.pattern.into_searcher(haystack), self.n)
    }
}

/// A searcher that lets the first `n` matches of the underlying searcher
/// through and converts every later match into a reject, one for one;
/// rejects pass through unchanged.
#[derive(Debug)]
pub struct LimitSearcher<S> {
    searcher: S,
    remaining: usize,
}

impl<S: Searcher> LimitSearcher<S> {
    /// The wrapped searcher.
    pub closed spec fn spec_searcher(self) -> S {
        self.searcher
    }

    /// How many further matches will still be reported as matches.
    pub closed spec fn spec_remaining(self) -> nat {
        self.remaining as nat
    }

    /// Wraps `searcher`, letting through at most `remaining` matches.
    pub fn new(searcher: S, remaining: usize) -> (r: Self)
        requires
            searcher.wf(),
        ensures
            r.wf(),
            r.pos() == searcher.pos(),
            r.hay() == searcher.hay(),
            r.spec_remaining() == remaining,
            r.spec_searcher() == searcher,
    {
        LimitSearcher { searcher, remaining }
    }

    /// Returns the maximum number of remaining matches.
    pub fn remaining(&self) -> (r: usize)
        ensures
            r == self.spec_remaining(),
    {
        self.remaining
    }

    /// Returns true if there are no more remaining matches.
    pub fn is_exhausted(&self) -> (r: bool)
        ensures
            r == (self.spec_remaining() == 0),
    {
        self.remaining == 0
    }
}

impl<S: Searcher> Searcher for LimitSearcher<S> {
    closed spec fn hay(&self) -> Seq<u8> {
        self.searcher.hay()
    }

    closed spec fn pos(&self) -> int {
        self.searcher.pos()
    }

    closed spec fn wf(&self) -> bool {
        self.searcher.wf()
    }

    open spec fn can_match(&self, s: int, e: int) -> bool {
        self.spec_searcher().can_match(s, e)
    }

    open spec fn can_reject(&self, s: int, e: int) -> bool {
        self.spec_searcher().can_reject(s, e) || self.spec_searcher().can_match(s, e)
    }

    closed spec fn work(&self) -> nat {
        self.searcher.work()
    }

    proof fn lemma_wf_pos(&self) {
        self.searcher.lemma_wf_pos();
    }

    fn haystack(&self) -> (h: &[u8]) {
        self.searcher.haystack()
    }

    fn next(&mut self) -> (step: SearchStep)
        ensures
            limit_step_counts(old(self).spec_remaining(), final(self).spec_remaining(), step),
            step matches SearchStep::Reject(s, e) ==> (old(self).spec_remaining() > 0
                ==> final(self).spec_searcher().can_reject(s as int, e as int)),
    {
        match self.searcher.next() {
            SearchStep::Match(start, end) => {
                if self.is_exhausted() {
                    SearchStep::Reject(start, end)
                } else {
                    self.remaining = self.remaining - 1;
                    SearchStep::Match(start, end)
                }
            }
            SearchStep::Reject(start, end) => SearchStep::Reject(start, end),
            SearchStep::Done => SearchStep::Done,
        }
    }
}

/// How one step relates the remaining budget before it (`pre`) to the
/// budget after it (`post`): a match is only ever emitted from a positive
/// budget, which it decrements; any other step leaves the budget alone.
pub open spec fn limit_step_counts(pre: nat, post: nat, step: SearchStep) -> bool {
    if step is Match {
        pre > 0 && post == (pre - 1) as nat
    } else {
        post == pre
    }
}

/// How many of the steps are matches.
pub open spec fn match_count(steps: Seq<SearchStep>) -> nat
    decreases steps.len(),
{
    if steps.len() == 0 {
        0
    } else {
        match_count(steps.drop_last()) + (if steps.last() is Match {
            1nat
        } else {
            0nat
        })
    }
}

/// Law (limit boundary): over any run of steps each obeying
/// [`limit_step_counts`] — as every step of a [`LimitSearcher`] does — the
/// number of matches emitted never exceeds the starting budget `n`; with
/// `n == 0`, no match is ever emitted.
pub proof fn lemma_limit_boundary(steps: Seq<SearchStep>, budget: Seq<nat>, n: nat)
    requires
        budget.len() == steps.len() + 1,
        budget[0] == n,
        forall|i: int| 0 <= i < steps.len()
            ==> limit_step_counts(budget[i], budget[i + 1], #[trigger] steps[i]),
    ensures
        match_count(steps) + budget[steps.len() as int] == n,
        match_count(steps) <= n,
        n == 0 ==> match_count(steps) == 0,
    decreases steps.len(),
{
    if steps.len() > 0 {
        let shorter = steps.drop_last();
        let last = steps.len() - 1;
        lemma_limit_boundary(shorter, budget.drop_last(), n);
        assert(budget.drop_last()[last] == budget[last]);
        assert(limit_step_counts(budget[last], budget[last + 1], steps[last]));
    }
}

} // verus!

//! Bounded greedy consecutive repetition: extends a match of the wrapped
//! pattern with immediately adjacent further matches, up to a bound, and
//! reports the fused run; a run shorter than the minimum is rejected
//! instead, and scanning resumes where the run broke off.

use vstd::prelude::*;

use crate::adapters::peekable::PeekableSearcher;
use crate::search::{Pattern, SearchStep, Searcher};

verus! {

/// `k` consecutive matches of `s` covering exactly `[a, b)`.
pub open spec fn repeated_match<S: Searcher>(s: S, a: int, b: int, k: nat) -> bool
    decreases k,
{
    if k == 0 {
        a == b
    } else {
        exists|m: int| #[trigger] s.can_match(a, m) && repeated_match(s, m, b, (k - 1) as nat)
    }
}

/// A run of `k` matches reaching `b`, followed by one more match from `b`
/// to `c`, is a run of `k + 1` matches reaching `c`.
proof fn lemma_repeated_snoc<S: Searcher>(s: S, a: int, b: int, c: int, k: nat)
    requires
        repeated_match(s, a, b, k),
        s.can_match(b, c),
    ensures
        repeated_match(s, a, c, k + 1),
    decreases k,
{
    if k == 0 {
        assert(s.can_match(a, c) && repeated_match(s, c, c, 0nat));
    } else {
        let m = choose|m: int| #[trigger] s.can_match(a, m) && repeated_match(s, m, b, (k - 1) as nat);
        lemma_repeated_snoc(s, m, b, c, (k - 1) as nat);
        assert(s.can_match(a, m) && repeated_match(s, m, c, k));
    }
}

/// Runs are preserved by any state change that preserves the searcher's
/// candidate-match predicate.
proof fn lemma_repeated_frame<S: Searcher>(pre: S, post: S, a: int, b: int, k: nat)
    requires
        forall|s: int, e: int|
            #![trigger post.can_match(s, e)] #![trigger pre.can_match(s, e)]
            post.can_match(s, e) == pre.can_match(s, e),
    ensures
        repeated_match(pre, a, b, k) == repeated_match(post, a, b, k),
    decreases k,
{
    if k > 0 {
        if repeated_match(pre, a, b, k) {
            let m = choose|m: int|
                #[trigger] pre.can_match(a, m) && repeated_match(pre, m, b, (k - 1) as nat);
            lemma_repeated_frame(pre, post, m, b, (k - 1) as nat);
            assert(post.can_match(a, m) && repeated_match(post, m, b, (k - 1) as nat));
        }
        if repeated_match(post, a, b, k) {
            let m = choose|m: int|
                #[trigger] post.can_match(a, m) && repeated_match(post, m, b, (k - 1) as nat);
            lemma_repeated_frame(pre, post, m, b, (k - 1) as nat);
            assert(pre.can_match(a, m) && repeated_match(pre, m, b, (k - 1) as nat));
        }
    }
}

/// The number of matches a fused span may hold at most, for a repetition
/// bound: the bound itself, or a single match where the bound is zero.
pub open spec fn fuse_bound(bound: nat) -> nat {
    if bound == 0 {
        1
    } else {
        bound
    }
}

/// A run of `lo` to `hi` (and at least one) consecutive matches of `x`
/// covering `[s, e)`: what a repetition searcher reports as one fused
/// match.
pub open spec fn bounded_run_match<S: Searcher>(x: S, s: int, e: int, lo: nat, hi: nat) -> bool {
    exists|k: nat| lo <= k && k <= hi && 1 <= k && #[trigger] repeated_match(x, s, e, k)
}

/// A run that breaks off short of `bound` consecutive matches of `x`:
/// what a repetition searcher rejects as one span.
pub open spec fn run_match_below<S: Searcher>(x: S, s: int, e: int, bound: nat) -> bool {
    exists|k: nat| 1 <= k && k < bound && #[trigger] repeated_match(x, s, e, k)
}

/// Runs at a fixed count are preserved by any state change that preserves
/// the searcher's candidate-match predicate.
pub(crate) proof fn lemma_repeated_frame_all<S: Searcher>(pre: S, post: S, k: nat)
    requires
        forall|s: int, e: int|
            #![trigger post.can_match(s, e)] #![trigger pre.can_match(s, e)]
            post.can_match(s, e) == pre.can_match(s, e),
    ensures
        forall|s: int, e: int|
            #![trigger repeated_match(pre, s, e, k)] #![trigger repeated_match(post, s, e, k)]
            repeated_match(pre, s, e, k) == repeated_match(post, s, e, k),
{
    assert forall|s: int, e: int|
        #![trigger repeated_match(pre, s, e, k)] #![trigger repeated_match(post, s, e, k)]
        repeated_match(pre, s, e, k) == repeated_match(post, s, e, k) by {
        lemma_repeated_frame(pre, post, s, e, k);
    }
}

/// Bounded and short runs are preserved by any state change that
/// preserves the searcher's candidate-match predicate.
pub(crate) proof fn lemma_run_frames<S: Searcher>(pre: S, post: S)
    requires
        forall|s: int, e: int|
            #![trigger post.can_match(s, e)] #![trigger pre.can_match(s, e)]
            post.can_match(s, e) == pre.can_match(s, e),
    ensures
        forall|s: int, e: int, lo: nat, hi: nat|
            #![trigger bounded_run_match(pre, s, e, lo, hi)]
            #![trigger bounded_run_match(post, s, e, lo, hi)]
            bounded_run_match(pre, s, e, lo, hi) == bounded_run_match(post, s, e, lo, hi),
        forall|s: int, e: int, bound: nat|
            #![trigger run_match_below(pre, s, e, bound)]
            #![trigger run_match_below(post, s, e, bound)]
            run_match_below(pre, s, e, bound) == run_match_below(post, s, e, bound),
{
    assert forall|s: int, e: int, lo: nat, hi: nat|
        #![trigger bounded_run_match(pre, s, e, lo, hi)]
        #![trigger bounded_run_match(post, s, e, lo, hi)]
        bounded_run_match(pre, s, e, lo, hi) == bounded_run_match(post, s, e, lo, hi) by {
        if bounded_run_match(pre, s, e, lo, hi) {
            let k = choose|k: nat|
                lo <= k && k <= hi && 1 <= k && #[trigger] repeated_match(pre, s, e, k);
            lemma_repeated_frame(pre, post, s, e, k);
            assert(lo <= k && k <= hi && 1 <= k && repeated_match(post, s, e, k));
        }
        if bounded_run_match(post, s, e, lo, hi) {
            let k = choose|k: nat|
                lo <= k && k <= hi && 1 <= k && #[trigger] repeated_match(post, s, e, k);
            lemma_repeated_frame(pre, post, s, e, k);
            assert(lo <= k && k <= hi && 1 <= k && repeated_match(pre, s, e, k));
        }
    }
    assert forall|s: int, e: int, bound: nat|
        #![trigger run_match_below(pre, s, e, bound)]
        #![trigger run_match_below(post, s, e, bound)]
        run_match_below(pre, s, e, bound) == run_match_below(post, s, e, bound) by {
        if run_match_below(pre, s, e, bound) {
            let k = choose|k: nat| 1 <= k && k < bound && #[trigger] repeated_match(pre, s, e, k);
            lemma_repeated_frame(pre, post, s, e, k);
            assert(1 <= k && k < bound && repeated_match(post, s, e, k));
        }
        if run_match_below(post, s, e, bound) {
            let k = choose|k: nat| 1 <= k && k < bound && #[trigger] repeated_match(post, s, e, k);
            lemma_repeated_frame(pre, post, s, e, k);
            assert(1 <= k && k < bound && repeated_match(pre, s, e, k));
        }
    }
}

/// Greedily consumes further matches of the child immediately adjacent to
/// a run that currently ends at `end0` after `count0` matches, until the
/// run holds `bound` matches or the next step of the child is not an
/// adjacent match.  Returns the end of the run and how many matches it
/// holds.
pub(crate) fn merge_run<S: Searcher>(
    p: &mut PeekableSearcher<S>,
    start: usize,
    end0: usize,
    count0: usize,
    bound: usize,
) -> (r: (usize, usize))
    requires
        old(p).wf(),
        old(p).spec_peeked() is None,
        old(p).pos() == end0,
        start <= end0 <= old(p).hay().len(),
        1 <= count0 <= bound,
        repeated_match(*old(p), start as int, end0 as int, count0 as nat),
    ensures
        final(p).wf(),
        final(p).hay() == old(p).hay(),
        forall|s: int, e: int|
            #![trigger final(p).can_match(s, e)] #![trigger old(p).can_match(s, e)]
            final(p).can_match(s, e) == old(p).can_match(s, e),
        forall|s: int, e: int|
            #![trigger final(p).can_reject(s, e)] #![trigger old(p).can_reject(s, e)]
            final(p).can_reject(s, e) == old(p).can_reject(s, e),
        final(p).work() <= old(p).work(),
        r.0 as int == final(p).pos(),
        start <= end0 <= r.0 <= old(p).hay().len(),
        count0 <= r.1 <= bound,
        repeated_match(*final(p), start as int, r.0 as int, r.1 as nat),
        r.1 == bound || (final(p).spec_peeked() matches Some(st) && !(st is Match)),
{
    let mut end: usize = end0;
    let mut count: usize = count0;

    loop
        invariant
            p.wf(),
            p.hay() == old(p).hay(),
            p.pos() == end as int,
            start <= end0 <= end <= old(p).hay().len(),
            count0 <= count <= bound,
            p.work() <= old(p).work(),
            p.spec_peeked() is None,
            forall|s: int, e: int|
                #![trigger p.can_match(s, e)] #![trigger old(p).can_match(s, e)]
                p.can_match(s, e) == old(p).can_match(s, e),
            forall|s: int, e: int|
                #![trigger p.can_reject(s, e)] #![trigger old(p).can_reject(s, e)]
                p.can_reject(s, e) == old(p).can_reject(s, e),
            repeated_match(*p, start as int, end as int, count as nat),
        decreases bound - count,
    {
        if count >= bound {
            return (end, count);
        }

        let ghost at_iteration = *p;
        let peeked = p.peek();
        proof {
            lemma_repeated_frame(at_iteration, *p, start as int, end as int, count as nat);
        }
        match peeked {
            SearchStep::Match(_, next_end) => {
                // The child's steps are contiguous, so the peeked match
                // begins exactly where the run ends: consume it.
                let ghost before = *p;
                let consumed = p.next();
                proof {
                    assert(consumed == peeked);
                    lemma_repeated_frame(before, *p, start as int, end as int, count as nat);
                    lemma_repeated_snoc(*p, start as int, end as int, next_end as int, count as nat);
                }
                end = next_end;
                count = count + 1;
            }
            _ => {
                // A reject or exhaustion follows: the run cannot be
                // extended; scanning resumes here.
                return (end, count);
            }
        }
    }
}

/// A pattern matching `min` to `max` consecutive matches of a child
/// pattern, greedily fused into one span.
#[derive(Debug, Clone, Copy, PartialEq, Eq)]
pub struct RepeatPattern<P> {
    pattern: P,
    min: usize,
    max: usize,
}

impl<P> RepeatPattern<P> {
    /// The repeated pattern.
    pub closed spec fn spec_pattern(self) -> P {
        self.pattern
    }

    /// The least number of consecutive matches that forms a match.
    pub closed spec fn spec_min(self) -> nat {
        self.min as nat
    }

    /// The largest number of consecutive matches fused into one span.
    pub closed spec fn spec_max(self) -> nat {
        self.max as nat
    }

    /// Repetition of `pattern`, between `min` and `max` times.
    pub fn new(pattern: P, min: usize, max: usize) -> (r: Self)
        ensures
            r.spec_pattern() == pattern,
            r.spec_min() == min,
            r.spec_max() == max,
    {
        RepeatPattern { pattern, min, max }
    }
}

impl<'a, P: Pattern<'a>> Pattern<'a> for RepeatPattern<P> {
    type Searcher = RepeatSearcher<P::Searcher>;

    fn into_searcher(self, haystack: &'a [u8]) -> (s: Self::Searcher)
        ensures
            s.spec_min() == self.spec_min(),
            s.spec_max() == self.spec_max(),
            s.spec_searcher().spec_peeked() is None,
            s.spec_searcher().spec_searcher().wf(),
            s.spec_searcher().spec_searcher().pos() == 0,
            s.spec_searcher().spec_searcher().hay() == haystack@,
    {
        RepeatSearcher::new(self.pattern.into_searcher(haystack), self.min, self.max)
    }
}

/// The searcher of a [`RepeatPattern`]: a reported match is a run of
/// consecutive child matches; a run that breaks off before `min` matches
/// is reported as one reject.  A reported match always contains at least
/// one child match, whatever `min` is: where the child never matches, the
/// span is rejected, never reported as a zero-width match.  A reported
/// match is greedy: its run either holds the full bound of matches or
/// cannot be extended, the next buffered step of the child not being a
/// match.
#[derive(Debug)]
pub struct RepeatSearcher<S> {
    searcher: PeekableSearcher<S>,
    min: usize,
    max: usize,
}

impl<S: Searcher> RepeatSearcher<S> {
    /// The wrapped searcher, with its one-step lookahead.
    pub closed spec fn spec_searcher(self) -> PeekableSearcher<S> {
        self.searcher
    }

    /// The least number of consecutive matches that forms a match.
    pub closed spec fn spec_min(self) -> nat {
        self.min as nat
    }

    /// The largest number of consecutive matches fused into one span.
    pub closed spec fn spec_max(self) -> nat {
        self.max as nat
    }

    /// Wraps `searcher`, fusing runs of `min` to `max` adjacent matches.
    pub fn new(searcher: S, min: usize, max: usize) -> (r: Self)
        requires
            searcher.wf(),
        ensures
            r.wf(),
            r.pos() == searcher.pos(),
            r.hay() == searcher.hay(),
            r.spec_min() == min,
            r.spec_max() == max,
            r.spec_searcher().spec_searcher() == searcher,
            r.spec_searcher().spec_peeked() is None,
    {
        RepeatSearcher { searcher: PeekableSearcher::new(searcher), min, max }
    }
}

impl<S: Searcher> Searcher for RepeatSearcher<S> {
    closed spec fn hay(&self) -> Seq<u8> {
        self.searcher.hay()
    }

    closed spec fn pos(&self) -> int {
        self.searcher.pos()
    }

    closed spec fn wf(&self) -> bool {
        self.searcher.wf()
    }

    open spec fn can_match(&self, s: int, e: int) -> bool {
        bounded_run_match(
            self.spec_searcher(),
            s,
            e,
            self.spec_min(),
            fuse_bound(self.spec_max()),
        )
    }

    open spec fn can_reject(&self, s: int, e: int) -> bool {
        ||| self.spec_searcher().can_reject(s, e)
        ||| run_match_below(self.spec_searcher(), s, e, self.spec_min())
    }

    closed spec fn work(&self) -> nat {
        self.searcher.work()
    }

    proof fn lemma_wf_pos(&self) {
        self.searcher.lemma_wf_pos();
    }

    fn haystack(&self) -> (h: &[u8]) {
        self.searcher.haystack()
    }

    fn next(&mut self) -> (step: SearchStep)
        ensures
            step matches SearchStep::Match(s2, e2) ==> ({
                ||| bounded_run_match(
                    final(self).spec_searcher(),
                    s2 as int,
                    e2 as int,
                    fuse_bound(final(self).spec_max()),
                    fuse_bound(final(self).spec_max()),
                )
                ||| (final(self).spec_searcher().spec_peeked() matches Some(st)
                    && !(st is Match))
            }),
    {
        let minimum: usize = self.min;
        let bound: usize = self.max;

        let step = self.searcher.next();

        if let SearchStep::Match(start, end0) = step {
            proof {
                assert(repeated_match(self.spec_searcher(), start as int, end0 as int, 1nat))
                    by {
                    assert(self.spec_searcher().can_match(start as int, end0 as int)
                        && repeated_match(self.spec_searcher(), end0 as int, end0 as int, 0nat));
                }
            }
            let run = if bound >= 1 {
                merge_run(&mut self.searcher, start, end0, 1, bound)
            } else {
                (end0, 1)
            };
            let end: usize = run.0;

            proof {
                lemma_run_frames(old(self).spec_searcher(), self.spec_searcher());
            }
            if run.1 < minimum {
                proof {
                    assert(1 <= run.1 as nat && (run.1 as nat) < self.spec_min()
                        && repeated_match(
                        self.spec_searcher(),
                        start as int,
                        end as int,
                        run.1 as nat,
                    ));
                    assert(run_match_below(
                        self.spec_searcher(),
                        start as int,
                        end as int,
                        self.spec_min(),
                    ));
                }
                SearchStep::Reject(start, end)
            } else {
                proof {
                    assert(self.spec_min() <= run.1 as nat
                        && run.1 as nat <= fuse_bound(self.spec_max())
                        && 1 <= run.1 as nat
                        && repeated_match(
                        self.spec_searcher(),
                        start as int,
                        end as int,
                        run.1 as nat,
                    ));
                    assert(bounded_run_match(
                        self.spec_searcher(),
                        start as int,
                        end as int,
                        self.spec_min(),
                        fuse_bound(self.spec_max()),
                    ));
                }
                SearchStep::Match(start, end)
            }
        } else {
            proof {
                lemma_run_frames(old(self).spec_searcher(), self.spec_searcher());
            }
            step
        }
    }
}

} // verus!

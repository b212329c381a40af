//! Exact-count repetition: fuses exactly `min` consecutive matches of the
//! wrapped pattern into one match; a run that breaks off earlier is
//! rejected as a whole.

use vstd::prelude::*;

use crate::adapters::peekable::PeekableSearcher;
use crate::adapters::repeat::{
    fuse_bound, lemma_repeated_frame_all, lemma_run_frames, merge_run, repeated_match,
    run_match_below,
};
use crate::search::{Pattern, SearchStep, Searcher};

verus! {

/// A pattern matching exactly `min` consecutive matches of a child
/// pattern, fused into one span.
#[derive(Debug, Clone, Copy, PartialEq, Eq)]
pub struct MinPattern<P> {
    pattern: P,
    min: usize,
}

impl<P> MinPattern<P> {
    /// The repeated pattern.
    pub closed spec fn spec_pattern(self) -> P {
        self.pattern
    }

    /// The number of consecutive matches fused into one span.
    pub closed spec fn spec_min(self) -> nat {
        self.min as nat
    }

    /// Repetition of `pattern` exactly `min` times.
    pub fn new(pattern: P, min: usize) -> (r: Self)
        ensures
            r.spec_pattern() == pattern,
            r.spec_min() == min,
    {
        MinPattern { pattern, min }
    }
}

impl<'a, P: Pattern<'a>> Pattern<'a> for MinPattern<P> {
    type Searcher = MinSearcher<P::Searcher>;

    fn into_searcher(self, haystack: &'a [u8]) -> (s: Self::Searcher)
        ensures
            s.spec_min() == self.spec_min(),
            s.spec_searcher().spec_peeked() is None,
            s.spec_searcher().spec_searcher().wf(),
            s.spec_searcher().spec_searcher().pos() == 0,
            s.spec_searcher().spec_searcher().hay() == haystack@,
    {
        MinSearcher::new(self.pattern.into_searcher(haystack), self.min)
    }
}

/// The searcher of a [`MinPattern`].
#[derive(Debug)]
pub struct MinSearcher<S> {
    searcher: PeekableSearcher<S>,
    min: usize,
}

impl<S: Searcher> MinSearcher<S> {
    /// The wrapped searcher, with its one-step lookahead.
    pub closed spec fn spec_searcher(self) -> PeekableSearcher<S> {
        self.searcher
    }

    /// The number of consecutive matches fused into one span.
    pub closed spec fn spec_min(self) -> nat {
        self.min as nat
    }

    /// Wraps `searcher`, fusing runs of exactly `min` adjacent matches.
    pub fn new(searcher: S, min: usize) -> (r: Self)
        requires
            searcher.wf(),
        ensures
            r.wf(),
            r.pos() == searcher.pos(),
            r.hay() == searcher.hay(),
            r.spec_min() == min,
            r.spec_searcher().spec_searcher() == searcher,
            r.spec_searcher().spec_peeked() is None,
    {
        MinSearcher { searcher: PeekableSearcher::new(searcher), min }
    }
}

impl<S: Searcher> Searcher for MinSearcher<S> {
    closed spec fn hay(&self) -> Seq<u8> {
        self.searcher.hay()
    }

    closed spec fn pos(&self) -> int {
        self.searcher.pos()
    }

    closed spec fn wf(&self) -> bool {
        self.searcher.wf()
    }

    open spec fn can_match(&self, s: int, e: int) -> bool {
        repeated_match(self.spec_searcher(), s, e, fuse_bound(self.spec_min()))
    }

    open spec fn can_reject(&self, s: int, e: int) -> bool {
        ||| self.spec_searcher().can_reject(s, e)
        ||| run_match_below(self.spec_searcher(), s, e, self.spec_min())
    }

    closed spec fn work(&self) -> nat {
        self.searcher.work()
    }

    proof fn lemma_wf_pos(&self) {
        self.searcher.lemma_wf_pos();
    }

    fn haystack(&self) -> (h: &[u8]) {
        self.searcher.haystack()
    }

    fn next(&mut self) -> (step: SearchStep)
        ensures
            step matches SearchStep::Match(s2, e2) ==> ({
                ||| repeated_match(
                    final(self).spec_searcher(),
                    s2 as int,
                    e2 as int,
                    fuse_bound(final(self).spec_min()),
                )
                ||| (final(self).spec_searcher().spec_peeked() matches Some(st)
                    && !(st is Match))
            }),
    {
        let minimum: usize = self.min;

        let step = self.searcher.next();

        if let SearchStep::Match(start, end0) = step {
            proof {
                assert(repeated_match(self.spec_searcher(), start as int, end0 as int, 1nat))
                    by {
                    assert(self.spec_searcher().can_match(start as int, end0 as int)
                        && repeated_match(self.spec_searcher(), end0 as int, end0 as int, 0nat));
                }
            }
            let run = if minimum >= 1 {
                merge_run(&mut self.searcher, start, end0, 1, minimum)
            } else {
                (end0, 1)
            };
            let end: usize = run.0;

            proof {
                lemma_run_frames(old(self).spec_searcher(), self.spec_searcher());
                lemma_repeated_frame_all(
                    old(self).spec_searcher(),
                    self.spec_searcher(),
                    fuse_bound(self.spec_min()),
                );
            }
            if run.1 < minimum {
                proof {
                    assert(1 <= run.1 as nat && (run.1 as nat) < self.spec_min()
                        && repeated_match(
                        self.spec_searcher(),
                        start as int,
                        end as int,
                        run.1 as nat,
                    ));
                    assert(run_match_below(
                        self.spec_searcher(),
                        start as int,
                        end as int,
                        self.spec_min(),
                    ));
                }
                SearchStep::Reject(start, end)
            } else {
                proof {
                    assert(run.1 as nat == fuse_bound(self.spec_min()) && repeated_match(
                        self.spec_searcher(),
                        start as int,
                        end as int,
                        run.1 as nat,
                    ));
                }
                SearchStep::Match(start, end)
            }
        } else {
            proof {
                lemma_run_frames(old(self).spec_searcher(), self.spec_searcher());
                lemma_repeated_frame_all(
                    old(self).spec_searcher(),
                    self.spec_searcher(),
                    fuse_bound(self.spec_min()),
                );
            }
            step
        }
    }
}

} // verus!

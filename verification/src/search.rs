//! The step-emission protocol: the [`SearchStep`] type, the [`Searcher`] and
//! [`Pattern`] traits, and the partition law that every conforming searcher
//! obeys.
//!
//! A searcher is a stateful cursor bound to one haystack.  Each call to
//! [`Searcher::next`] emits one step.  The protocol ([`step_ok`]) guarantees
//! that every emitted span starts exactly at the current cursor, never runs
//! backwards, stays inside the haystack and advances the cursor to its end,
//! and that `Done` is only reported once the cursor has reached the end of
//! the haystack.  Chaining these local guarantees yields the global
//! partition invariant ([`lemma_partition_invariant`]): the emitted spans
//! cover the haystack from 0 to its length with no gaps and no overlaps.

use vstd::prelude::*;

verus! {

/// One emitted unit of a search: a matched span, a rejected span (both
/// half-open `[start, end)` byte intervals), or the terminal sentinel.
#[derive(Debug, Clone, Copy, PartialEq, Eq, Structural)]
pub enum SearchStep {
    /// The span `[start, end)` matches the pattern.
    Match(usize, usize),
    /// The span `[start, end)` does not take part in any reported match.
    Reject(usize, usize),
    /// The haystack is exhausted.
    Done,
}

/// The local step protocol, relating the cursor before a step (`pre`) and
/// after it (`post`) to the emitted step, for a haystack of length `len`:
/// a span starts at the old cursor, does not run backwards, stays inside
/// the haystack and moves the cursor to its end; `Done` is emitted only
/// with the cursor at the end of the haystack, and leaves it there.
pub open spec fn step_ok(pre: int, post: int, len: int, step: SearchStep) -> bool {
    match step {
        SearchStep::Match(s, e) => s == pre && s <= e && e <= len && post == e,
        SearchStep::Reject(s, e) => s == pre && s <= e && e <= len && post == e,
        SearchStep::Done => pre == len && post == pre,
    }
}

/// The start of a non-`Done` step.
pub open spec fn step_start(step: SearchStep) -> int {
    match step {
        SearchStep::Match(s, _) => s as int,
        SearchStep::Reject(s, _) => s as int,
        SearchStep::Done => 0,
    }
}

/// The end of a non-`Done` step.
pub open spec fn step_end(step: SearchStep) -> int {
    match step {
        SearchStep::Match(_, e) => e as int,
        SearchStep::Reject(_, e) => e as int,
        SearchStep::Done => 0,
    }
}

/// A stateful cursor bound to one haystack, emitting one [`SearchStep`] per
/// call to [`Searcher::next`].
///
/// The contract of `next` is the heart of the library: it forces every
/// implementation, leaf or combinator, to re-establish the continuity of
/// the emitted spans on each step.
pub trait Searcher: Sized {
    /// The haystack this searcher is bound to.
    spec fn hay(&self) -> Seq<u8>;

    /// The cursor: the end of the most recently emitted span (0 initially).
    spec fn pos(&self) -> int;

    /// Internal well-formedness, established on construction and preserved
    /// by every step.
    spec fn wf(&self) -> bool;

    /// What this searcher considers a candidate match: every emitted
    /// `Match(s, e)` satisfies `can_match(s, e)`.  Implementations define it
    /// as precisely as their leaf predicates allow; a stateful scanner may
    /// leave it trivial.
    spec fn can_match(&self, s: int, e: int) -> bool;

    /// What this searcher may reject: every emitted `Reject(s, e)` satisfies
    /// `can_reject(s, e)`.
    spec fn can_reject(&self, s: int, e: int) -> bool;

    /// Termination measure: every step other than `Done` strictly decreases
    /// it, so a search over a finite haystack emits finitely many spans.
    spec fn work(&self) -> nat;

    /// A well-formed searcher's cursor lies inside its haystack.
    proof fn lemma_wf_pos(&self)
        requires
            self.wf(),
        ensures
            0 <= self.pos() <= self.hay().len(),
    ;

    /// The haystack this searcher scans.
    fn haystack(&self) -> (h: &[u8])
        requires
            self.wf(),
        ensures
            h@ == self.hay(),
    ;

    /// Emits the next step of the partition.
    fn next(&mut self) -> (step: SearchStep)
        requires
            old(self).wf(),
        ensures
            final(self).wf(),
            final(self).hay() == old(self).hay(),
            forall|s: int, e: int|
                #![trigger final(self).can_match(s, e)] #![trigger old(self).can_match(s, e)]
                final(self).can_match(s, e) == old(self).can_match(s, e),
            forall|s: int, e: int|
                #![trigger final(self).can_reject(s, e)] #![trigger old(self).can_reject(s, e)]
                final(self).can_reject(s, e) == old(self).can_reject(s, e),
            step_ok(old(self).pos(), final(self).pos(), old(self).hay().len() as int, step),
            step matches SearchStep::Match(s, e) ==> final(self).can_match(s as int, e as int),
            step matches SearchStep::Reject(s, e) ==> final(self).can_reject(s as int, e as int),
            step != SearchStep::Done ==> final(self).work() < old(self).work(),
            final(self).work() <= old(self).work(),
    ;

    /// Skips rejected spans and returns the bounds of the next matched span,
    /// or `None` once the haystack is exhausted.
    fn next_match(&mut self) -> (m: Option<(usize, usize)>)
        requires
            old(self).wf(),
        ensures
            final(self).wf(),
            final(self).hay() == old(self).hay(),
            forall|s: int, e: int|
                #![trigger final(self).can_match(s, e)] #![trigger old(self).can_match(s, e)]
                final(self).can_match(s, e) == old(self).can_match(s, e),
            forall|s: int, e: int|
                #![trigger final(self).can_reject(s, e)] #![trigger old(self).can_reject(s, e)]
                final(self).can_reject(s, e) == old(self).can_reject(s, e),
            final(self).work() <= old(self).work(),
            match m {
                Some((s, e)) => {
                    &&& old(self).pos() <= s <= e <= old(self).hay().len()
                    &&& final(self).pos() == e
                    &&& final(self).can_match(s as int, e as int)
                    &&& final(self).work() < old(self).work()
                },
                None => final(self).pos() == old(self).hay().len(),
            },
    {
        loop
            invariant
                self.wf(),
                self.hay() == old(self).hay(),
                old(self).pos() <= self.pos(),
                self.work() <= old(self).work(),
                forall|s: int, e: int|
                    #![trigger self.can_match(s, e)] #![trigger old(self).can_match(s, e)]
                    self.can_match(s, e) == old(self).can_match(s, e),
                forall|s: int, e: int|
                    #![trigger self.can_reject(s, e)] #![trigger old(self).can_reject(s, e)]
                    self.can_reject(s, e) == old(self).can_reject(s, e),
            decreases self.work(),
        {
            match self.next() {
                SearchStep::Match(s, e) => {
                    return Some((s, e));
                }
                SearchStep::Done => {
                    return None;
                }
                SearchStep::Reject(_, _) => {}
            }
        }
    }
}

/// The backward step protocol, the mirror image of [`step_ok`]: a span
/// ends at the old back cursor, does not run backwards, stays inside the
/// haystack and moves the back cursor down to its start; `Done` is
/// emitted only with the back cursor at the start of the haystack.
pub open spec fn step_ok_back(pre: int, post: int, len: int, step: SearchStep) -> bool {
    match step {
        SearchStep::Match(s, e) => e == pre && s <= e && e <= len && post == s,
        SearchStep::Reject(s, e) => e == pre && s <= e && e <= len && post == s,
        SearchStep::Done => pre == 0 && post == pre,
    }
}

/// A searcher that can also be drained from the back.
///
/// The backward steps form their own partition of the haystack, emitted
/// from the end towards the start; the backward traversal is independent
/// of the forward one and does not disturb the forward cursor.
pub trait ReverseSearcher: Searcher {
    /// The back cursor: the start of the most recently emitted backward
    /// span (the haystack length initially).
    spec fn rpos(&self) -> int;

    /// Well-formedness of the backward state, established on construction
    /// and preserved by every backward step.
    spec fn rwf(&self) -> bool;

    /// Termination measure of the backward traversal.
    spec fn rwork(&self) -> nat;

    /// A well-formed reversible searcher's back cursor lies inside its
    /// haystack.
    proof fn lemma_rwf_pos(&self)
        requires
            self.wf(),
            self.rwf(),
        ensures
            0 <= self.rpos() <= self.hay().len(),
    ;

    /// Emits the next step of the backward partition.
    fn next_back(&mut self) -> (step: SearchStep)
        requires
            old(self).wf(),
            old(self).rwf(),
        ensures
            final(self).wf(),
            final(self).rwf(),
            final(self).hay() == old(self).hay(),
            final(self).pos() == old(self).pos(),
            forall|s: int, e: int|
                #![trigger final(self).can_match(s, e)] #![trigger old(self).can_match(s, e)]
                final(self).can_match(s, e) == old(self).can_match(s, e),
            forall|s: int, e: int|
                #![trigger final(self).can_reject(s, e)] #![trigger old(self).can_reject(s, e)]
                final(self).can_reject(s, e) == old(self).can_reject(s, e),
            step_ok_back(old(self).rpos(), final(self).rpos(), old(self).hay().len() as int, step),
            step matches SearchStep::Match(s, e) ==> final(self).can_match(s as int, e as int),
            step matches SearchStep::Reject(s, e) ==> final(self).can_reject(s as int, e as int),
            step != SearchStep::Done ==> final(self).rwork() < old(self).rwork(),
            final(self).rwork() <= old(self).rwork(),
    ;

    /// Skips rejected spans from the back and returns the bounds of the
    /// next matched span before the back cursor, or `None` once the
    /// backward traversal is exhausted.
    fn next_match_back(&mut self) -> (m: Option<(usize, usize)>)
        requires
            old(self).wf(),
            old(self).rwf(),
        ensures
            final(self).wf(),
            final(self).rwf(),
            final(self).hay() == old(self).hay(),
            final(self).pos() == old(self).pos(),
            forall|s: int, e: int|
                #![trigger final(self).can_match(s, e)] #![trigger old(self).can_match(s, e)]
                final(self).can_match(s, e) == old(self).can_match(s, e),
            forall|s: int, e: int|
                #![trigger final(self).can_reject(s, e)] #![trigger old(self).can_reject(s, e)]
                final(self).can_reject(s, e) == old(self).can_reject(s, e),
            final(self).rwork() <= old(self).rwork(),
            match m {
                Some((s, e)) => {
                    &&& s <= e && e as int <= old(self).rpos()
                    &&& final(self).rpos() == s
                    &&& final(self).can_match(s as int, e as int)
                    &&& final(self).rwork() < old(self).rwork()
                },
                None => final(self).rpos() == 0,
            },
    {
        loop
            invariant
                self.wf(),
                self.rwf(),
                self.hay() == old(self).hay(),
                self.pos() == old(self).pos(),
                self.rpos() <= old(self).rpos(),
                self.rwork() <= old(self).rwork(),
                forall|s: int, e: int|
                    #![trigger self.can_match(s, e)] #![trigger old(self).can_match(s, e)]
                    self.can_match(s, e) == old(self).can_match(s, e),
                forall|s: int, e: int|
                    #![trigger self.can_reject(s, e)] #![trigger old(self).can_reject(s, e)]
                    self.can_reject(s, e) == old(self).can_reject(s, e),
            decreases self.rwork(),
        {
            match self.next_back() {
                SearchStep::Match(s, e) => {
                    return Some((s, e));
                }
                SearchStep::Done => {
                    return None;
                }
                SearchStep::Reject(_, _) => {}
            }
        }
    }
}

/// A pattern: an immutable descriptor that, bound to a haystack, yields a
/// fresh searcher positioned at the start of the haystack.  The factory
/// step is pure construction, not search.
pub trait Pattern<'a>: Sized {
    /// The searcher this pattern manufactures.
    type Searcher: Searcher;

    /// Binds this pattern to a haystack.
    fn into_searcher(self, haystack: &'a [u8]) -> (s: Self::Searcher)
        ensures
            s.wf(),
            s.pos() == 0,
            s.hay() == haystack@,
    ;
}

/// A protocol-conforming trace: `cursor` records the cursor before and
/// after each of the `steps`, starting at 0, with every step obeying
/// [`step_ok`] and none of them `Done`.
pub open spec fn valid_trace(steps: Seq<SearchStep>, cursor: Seq<int>, len: int) -> bool {
    &&& cursor.len() == steps.len() + 1
    &&& cursor[0] == 0
    &&& forall|i: int| 0 <= i < steps.len()
        ==> step_ok(cursor[i], cursor[i + 1], len, #[trigger] steps[i])
    &&& forall|i: int| 0 <= i < steps.len() ==> !(#[trigger] steps[i] is Done)
}

proof fn lemma_cursor_nonneg(steps: Seq<SearchStep>, cursor: Seq<int>, len: int, i: int)
    requires
        valid_trace(steps, cursor, len),
        0 <= i < cursor.len(),
    ensures
        0 <= cursor[i],
    decreases i,
{
    if i > 0 {
        lemma_cursor_nonneg(steps, cursor, len, i - 1);
        assert(step_ok(cursor[i - 1], cursor[(i - 1) + 1], len, steps[i - 1]));
    }
}

/// Law (partition invariant): a run of non-`Done` steps each obeying the
/// protocol, with the cursor starting at 0, partitions a prefix of the
/// haystack: the first span starts at 0, each span runs from the cursor
/// before it to the cursor after it, consecutive spans are contiguous, and
/// every span lies inside the haystack.
pub proof fn lemma_partition_invariant(steps: Seq<SearchStep>, cursor: Seq<int>, len: int)
    requires
        valid_trace(steps, cursor, len),
    ensures
        steps.len() > 0 ==> step_start(steps[0]) == 0,
        forall|i: int| 0 <= i < steps.len()
            ==> #[trigger] step_start(steps[i]) == cursor[i] && step_end(steps[i]) == cursor[i + 1],
        forall|i: int| 0 <= i && i + 1 < steps.len()
            ==> #[trigger] step_end(steps[i]) == step_start(steps[i + 1]),
        forall|i: int| 0 <= i < steps.len()
            ==> 0 <= #[trigger] step_start(steps[i]) && step_start(steps[i]) <= step_end(steps[i])
                && step_end(steps[i]) <= len,
{
    assert forall|i: int| 0 <= i < steps.len()
        implies #[trigger] step_start(steps[i]) == cursor[i] && step_end(steps[i]) == cursor[i + 1] by {
        assert(step_ok(cursor[i], cursor[i + 1], len, steps[i]));
    }
    assert forall|i: int| 0 <= i && i + 1 < steps.len()
        implies #[trigger] step_end(steps[i]) == step_start(steps[i + 1]) by {
        assert(step_ok(cursor[i], cursor[i + 1], len, steps[i]));
        assert(step_ok(cursor[i + 1], cursor[i + 1 + 1], len, steps[i + 1]));
    }
    assert forall|i: int| 0 <= i < steps.len()
        implies 0 <= #[trigger] step_start(steps[i]) && step_start(steps[i]) <= step_end(steps[i])
            && step_end(steps[i]) <= len by {
        lemma_cursor_nonneg(steps, cursor, len, i);
        assert(step_ok(cursor[i], cursor[i + 1], len, steps[i]));
    }
}

/// Law (completed partition): if, after such a run, one more protocol step
/// reports `Done`, the run has covered the haystack exactly: the final
/// cursor — and so the end of the last span, if any — equals the haystack
/// length.
pub proof fn lemma_partition_complete(steps: Seq<SearchStep>, cursor: Seq<int>, len: int)
    requires
        valid_trace(steps, cursor, len),
        step_ok(cursor[steps.len() as int], cursor[steps.len() as int], len, SearchStep::Done),
    ensures
        cursor[steps.len() as int] == len,
        steps.len() > 0 ==> step_end(steps[steps.len() - 1]) == len,
        steps.len() == 0 ==> len == 0,
{
    lemma_partition_invariant(steps, cursor, len);
    if steps.len() > 0 {
        let last = steps.len() - 1;
        assert(step_ok(cursor[last], cursor[last + 1], len, steps[last]));
    }
}

/// A complete trace: some cursor sequence witnesses that `steps` obey the
/// protocol all the way from 0 to `len`.
pub open spec fn complete_trace(steps: Seq<SearchStep>, len: int) -> bool {
    exists|cursor: Seq<int>| {
        &&& #[trigger] valid_trace(steps, cursor, len)
        &&& cursor[steps.len() as int] == len
    }
}

/// Law (partition invariant, executable form): draining any fresh searcher
/// yields a protocol-conforming trace of non-`Done` steps whose cursor runs
/// from 0 to the haystack length — with [`lemma_partition_invariant`], the
/// emitted spans partition the whole haystack, whatever the pattern was.
pub fn collect_steps<S: Searcher>(searcher: S) -> (steps: Vec<SearchStep>)
    requires
        searcher.wf(),
        searcher.pos() == 0,
    ensures
        complete_trace(steps@, searcher.hay().len() as int),
{
    let ghost hay0 = searcher.hay();
    let mut draining = searcher;
    let mut steps: Vec<SearchStep> = Vec::new();
    let ghost mut cursor: Seq<int> = seq![0int];

    loop
        invariant
            draining.wf(),
            draining.hay() == hay0,
            searcher.hay() == hay0,
            valid_trace(steps@, cursor, hay0.len() as int),
            cursor[steps@.len() as int] == draining.pos(),
        decreases draining.work(),
    {
        let step = draining.next();
        if step == SearchStep::Done {
            proof {
                let len0 = hay0.len() as int;
                assert(valid_trace(steps@, cursor, len0));
                assert(cursor[steps@.len() as int] == len0);
                assert(complete_trace(steps@, len0));
            }
            return steps;
        }

        steps.push(step);
        proof {
            cursor = cursor.push(draining.pos());
            assert forall|i: int| 0 <= i < steps@.len()
                implies step_ok(cursor[i], cursor[i + 1], hay0.len() as int, #[trigger] steps@[i])
                    && !(steps@[i] is Done) by {
                if i < steps@.len() - 1 {
                    assert(steps@[i] == steps@.subrange(0, steps@.len() - 1)[i]);
                }
            }
        }
    }
}

/// How many of the `steps` are matches (`matched` true) or rejects
/// (`matched` false).
pub open spec fn count_steps(steps: Seq<SearchStep>, matched: bool) -> nat
    decreases steps.len(),
{
    if steps.len() == 0 {
        0
    } else {
        count_steps(steps.drop_last(), matched) + (match steps.last() {
            SearchStep::Match(_, _) => if matched {
                1nat
            } else {
                0nat
            },
            SearchStep::Reject(_, _) => if matched {
                0nat
            } else {
                1nat
            },
            SearchStep::Done => 0nat,
        })
    }
}

/// `n`, capped at the largest machine count.
pub open spec fn saturated(n: nat) -> nat {
    if n <= usize::MAX as nat {
        n
    } else {
        usize::MAX as nat
    }
}

/// A protocol-conforming run of non-`Done` steps from the cursor `pos0`
/// all the way to `len`.
pub open spec fn counting_trace(
    steps: Seq<SearchStep>,
    cursor: Seq<int>,
    pos0: int,
    len: int,
) -> bool {
    &&& cursor.len() == steps.len() + 1
    &&& cursor[0] == pos0
    &&& cursor[steps.len() as int] == len
    &&& forall|i: int| 0 <= i < steps.len()
        ==> step_ok(cursor[i], cursor[i + 1], len, #[trigger] steps[i])
    &&& forall|i: int| 0 <= i < steps.len() ==> !(#[trigger] steps[i] is Done)
}

/// Some protocol-conforming run from `pos0` to `len` holds exactly
/// `n_matches` matched and `n_rejects` rejected spans, each saturated.
pub open spec fn counted_trace(pos0: int, len: int, n_matches: nat, n_rejects: nat) -> bool {
    exists|steps: Seq<SearchStep>, cursor: Seq<int>| {
        &&& #[trigger] counting_trace(steps, cursor, pos0, len)
        &&& n_matches == saturated(count_steps(steps, true))
        &&& n_rejects == saturated(count_steps(steps, false))
    }
}

/// Drains a searcher, returning how many spans it matched and how many it
/// rejected (each count saturating at `usize::MAX`): the counts of one
/// protocol-conforming run from the searcher's cursor to the end of its
/// haystack.  The termination measure bounds the emitted spans, and so
/// the two counts together.
pub fn count_searcher<S: Searcher>(searcher: S) -> (counts: (usize, usize))
    requires
        searcher.wf(),
    ensures
        counts.0 + counts.1 <= searcher.work(),
        counted_trace(
            searcher.pos(),
            searcher.hay().len() as int,
            counts.0 as nat,
            counts.1 as nat,
        ),
{
    let ghost hay0 = searcher.hay();
    let ghost pos0 = searcher.pos();
    let mut draining = searcher;
    let mut number_of_matches: usize = 0;
    let mut number_of_rejects: usize = 0;
    let ghost mut steps: Seq<SearchStep> = Seq::empty();
    let ghost mut cursor: Seq<int> = seq![pos0];

    loop
        invariant
            draining.wf(),
            draining.hay() == hay0,
            searcher.hay() == hay0,
            searcher.pos() == pos0,
            number_of_matches + number_of_rejects + draining.work() <= searcher.work(),
            cursor.len() == steps.len() + 1,
            cursor[0] == pos0,
            cursor[steps.len() as int] == draining.pos(),
            forall|i: int| 0 <= i < steps.len()
                ==> step_ok(cursor[i], cursor[i + 1], hay0.len() as int, #[trigger] steps[i]),
            forall|i: int| 0 <= i < steps.len() ==> !(#[trigger] steps[i] is Done),
            number_of_matches as nat == saturated(count_steps(steps, true)),
            number_of_rejects as nat == saturated(count_steps(steps, false)),
        decreases draining.work(),
    {
        let step = draining.next();
        if step == SearchStep::Done {
            proof {
                assert(counting_trace(steps, cursor, pos0, hay0.len() as int));
                assert(counted_trace(
                    pos0,
                    hay0.len() as int,
                    number_of_matches as nat,
                    number_of_rejects as nat,
                ));
            }
            return (number_of_matches, number_of_rejects);
        }

        proof {
            let prev = steps;
            steps = steps.push(step);
            cursor = cursor.push(draining.pos());
            assert(steps.drop_last() =~= prev);
            assert forall|i: int| 0 <= i < steps.len()
                implies step_ok(cursor[i], cursor[i + 1], hay0.len() as int, #[trigger] steps[i])
                    && !(steps[i] is Done) by {
                if i < steps.len() - 1 {
                    assert(steps[i] == prev[i]);
                }
            }
        }

        match step {
            SearchStep::Match(_, _) => {
                if number_of_matches < usize::MAX {
                    number_of_matches = number_of_matches + 1;
                }
            }
            SearchStep::Reject(_, _) => {
                if number_of_rejects < usize::MAX {
                    number_of_rejects = number_of_rejects + 1;
                }
            }
            SearchStep::Done => {}
        }
    }
}

} // verus!

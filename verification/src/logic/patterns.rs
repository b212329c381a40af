//! Joint denial and conjunction, derived from complement and alternation
//! by fixed identities rather than independent algorithms:
//! `Nor(a, b) = Not(Or(a, b))` and `And(a, b) = Nor(Not(a), Not(b))`.
//! Reusing the alternation verbatim keeps their behaviour — including its
//! tie-break on overlapping candidates — in exact agreement.

use vstd::prelude::*;

use crate::logic::not::NotPattern;
use crate::logic::or::{LOrPattern, OrSearcher, ToMatch};
use crate::search::{Pattern, Searcher};

verus! {

/// Matches exactly where neither `a` nor `b` matches: `Not(Or(a, b))`.
#[derive(Debug, Clone, Copy, PartialEq, Eq)]
pub struct NorPattern<A, B> {
    inner: NotPattern<LOrPattern<A, B>>,
}

impl<A, B> NorPattern<A, B> {
    /// The composition this pattern is defined as.
    pub closed spec fn spec_inner(self) -> NotPattern<LOrPattern<A, B>> {
        self.inner
    }

    /// Joint denial of `a` and `b`, by the identity `Not(Or(a, b))`.
    pub fn new(a: A, b: B) -> (r: Self)
        ensures
            r.spec_inner().spec_pattern().spec_inner().spec_a() == a,
            r.spec_inner().spec_pattern().spec_inner().spec_b() == b,
            r.spec_inner().spec_pattern().spec_inner().spec_bias() == ToMatch::Left,
    {
        NorPattern { inner: NotPattern::new(LOrPattern::new(a, b)) }
    }
}

impl<'a, A: Pattern<'a>, B: Pattern<'a>> Pattern<'a> for NorPattern<A, B> {
    type Searcher = <NotPattern<LOrPattern<A, B>> as Pattern<'a>>::Searcher;

    fn into_searcher(self, haystack: &'a [u8]) -> (s: Self::Searcher)
        ensures
            s.spec_searcher().wf(),
            s.spec_searcher().pos() == 0,
            s.spec_searcher().hay() == haystack@,
    {
        self.inner.into_searcher(haystack)
    }
}

/// Matches where both `a` and `b` match: `Nor(Not(a), Not(b))`.
#[derive(Debug, Clone, Copy, PartialEq, Eq)]
pub struct AndPattern<A, B> {
    inner: NorPattern<NotPattern<A>, NotPattern<B>>,
}

impl<A, B> AndPattern<A, B> {
    /// The composition this pattern is defined as.
    pub closed spec fn spec_inner(self) -> NorPattern<NotPattern<A>, NotPattern<B>> {
        self.inner
    }

    /// Conjunction of `a` and `b`, by the identity `Nor(Not(a), Not(b))`.
    pub fn new(a: A, b: B) -> (r: Self)
        ensures
            r.spec_inner().spec_inner().spec_pattern().spec_inner().spec_a().spec_pattern() == a,
            r.spec_inner().spec_inner().spec_pattern().spec_inner().spec_b().spec_pattern() == b,
            r.spec_inner().spec_inner().spec_pattern().spec_inner().spec_bias() == ToMatch::Left,
    {
        AndPattern { inner: NorPattern::new(NotPattern::new(a), NotPattern::new(b)) }
    }
}

impl<'a, A: Pattern<'a>, B: Pattern<'a>> Pattern<'a> for AndPattern<A, B> {
    type Searcher = <NorPattern<NotPattern<A>, NotPattern<B>> as Pattern<'a>>::Searcher;

    fn into_searcher(self, haystack: &'a [u8]) -> (s: Self::Searcher)
        ensures
            s.spec_searcher().wf(),
            s.spec_searcher().pos() == 0,
            s.spec_searcher().hay() == haystack@,
    {
        self.inner.into_searcher(haystack)
    }
}

} // verus!

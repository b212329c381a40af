//! Logical combinators: complement and alternation, and the conjunction
//! and joint-denial patterns derived from them.

pub mod not;

pub mod or;

pub mod patterns;

use vstd::prelude::*;

use crate::search::{Pattern, Searcher};

pub use not::{NotPattern, NotSearcher};
pub use or::{LOrPattern, OrSearcher, ROrPattern, OrPattern, ToMatch};
pub use patterns::{AndPattern, NorPattern};

verus! {

/// Logical sugar on patterns: alternation, complement and the derived
/// conjunction and joint denial.
pub trait LogicPatternExt<'a>: Pattern<'a> {
    /// Alternation preferring `self` on conflicts.
    fn lor<P: Pattern<'a>>(self, other: P) -> (r: LOrPattern<Self, P>)
        ensures
            r.spec_inner().spec_a() == self,
            r.spec_inner().spec_b() == other,
            r.spec_inner().spec_bias() == ToMatch::Left,
    ;

    /// Alternation preferring `other` on conflicts.
    fn ror<P: Pattern<'a>>(self, other: P) -> (r: ROrPattern<Self, P>)
        ensures
            r.spec_inner().spec_a() == self,
            r.spec_inner().spec_b() == other,
            r.spec_inner().spec_bias() == ToMatch::Right,
    ;

    /// Complement: matches exactly what `self` rejects.
    fn not(self) -> (r: NotPattern<Self>)
        ensures
            r.spec_pattern() == self,
    ;

    /// Conjunction, by the identity `Nor(Not(self), Not(other))`.
    fn and<P: Pattern<'a>>(self, other: P) -> (r: AndPattern<Self, P>)
        ensures
            r.spec_inner().spec_inner().spec_pattern().spec_inner().spec_a().spec_pattern()
                == self,
            r.spec_inner().spec_inner().spec_pattern().spec_inner().spec_b().spec_pattern()
                == other,
    ;

    /// Joint denial, by the identity `Not(Or(self, other))`.
    fn nor<P: Pattern<'a>>(self, other: P) -> (r: NorPattern<Self, P>)
        ensures
            r.spec_inner().spec_pattern().spec_inner().spec_a() == self,
            r.spec_inner().spec_pattern().spec_inner().spec_b() == other,
    ;
}

impl<'a, Q: Pattern<'a>> LogicPatternExt<'a> for Q {
    fn lor<P: Pattern<'a>>(self, other: P) -> (r: LOrPattern<Self, P>) {
        LOrPattern::new(self, other)
    }

    fn ror<P: Pattern<'a>>(self, other: P) -> (r: ROrPattern<Self, P>) {
        ROrPattern::new(self, other)
    }

    fn not(self) -> (r: NotPattern<Self>) {
        NotPattern::new(self)
    }

    fn and<P: Pattern<'a>>(self, other: P) -> (r: AndPattern<Self, P>) {
        AndPattern::new(self, other)
    }

    fn nor<P: Pattern<'a>>(self, other: P) -> (r: NorPattern<Self, P>) {
        NorPattern::new(self, other)
    }
}

/// Logical sugar on searchers.
pub trait LogicSearcherExt: Searcher {
    /// Complement: swaps match and reject on every step.
    fn not(self) -> (r: NotSearcher<Self>)
        requires
            self.wf(),
        ensures
            r.wf(),
            r.pos() == self.pos(),
            r.hay() == self.hay(),
    ;
}

impl<S: Searcher> LogicSearcherExt for S {
    fn not(self) -> (r: NotSearcher<Self>) {
        NotSearcher::new(self)
    }
}

} // verus!

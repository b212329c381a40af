//! A stateful character scanner: classifies the haystack character by
//! character with a condition that threads a boolean state from one
//! character to the next.

use vstd::prelude::*;

use crate::base::chars::{char_step_back_len, char_step_len, step_back_len_at, step_len_at};
use crate::search::{Pattern, ReverseSearcher, SearchStep, Searcher};

verus! {

/// A stateful per-character condition.  Each variant is a small scanner:
/// given the leading byte of the current character and the carried state,
/// it decides whether the character matches and what the next state is.
#[derive(Debug, Clone, Copy, PartialEq, Eq, Structural)]
pub enum CharCond {
    /// Matches the characters outside parenthesized groups.  The carried
    /// state is "currently inside parentheses"; the parentheses
    /// themselves are rejected.
    OutsideParens,
}

/// The transition of `cond` on a character with leading byte `b` in state
/// `state`: returns whether the character matches, and the state carried
/// to the next character.
pub open spec fn spec_cond_step(cond: CharCond, b: u8, state: bool) -> (bool, bool) {
    match cond {
        CharCond::OutsideParens => {
            if b == 0x28 && !state {
                (false, true)
            } else if b == 0x29 && state {
                (false, false)
            } else {
                (!state, state)
            }
        }
    }
}

fn cond_step(cond: CharCond, b: u8, state: bool) -> (r: (bool, bool))
    ensures
        r == spec_cond_step(cond, b, state),
{
    match cond {
        CharCond::OutsideParens => {
            if b == 0x28 && !state {
                (false, true)
            } else if b == 0x29 && state {
                (false, false)
            } else {
                (!state, state)
            }
        }
    }
}

/// A pattern classifying each character with a stateful condition.
#[derive(Debug, Clone, Copy, PartialEq, Eq, Structural)]
pub struct CharPattern {
    cond: CharCond,
    state: bool,
}

impl CharPattern {
    /// The condition of this pattern.
    pub closed spec fn spec_cond(self) -> CharCond {
        self.cond
    }

    /// The initial state of this pattern's condition.
    pub closed spec fn spec_state(self) -> bool {
        self.state
    }

    /// Constructs a pattern scanning with `cond`, starting in `state`.
    pub fn new(cond: CharCond, state: bool) -> (r: Self)
        ensures
            r.spec_cond() == cond,
            r.spec_state() == state,
    {
        CharPattern { cond, state }
    }
}

impl<'a> Pattern<'a> for CharPattern {
    type Searcher = CharSearcher<'a>;

    fn into_searcher(self, haystack: &'a [u8]) -> (s: Self::Searcher)
        ensures
            s.spec_cond() == self.spec_cond(),
            s.spec_state() == self.spec_state(),
    {
        let len: usize = haystack.len();
        CharSearcher { haystack, cond: self.cond, state: self.state, pos: 0, rpos: len }
    }
}

/// The searcher of a [`CharPattern`]: walks the haystack one character at
/// a time, matching or rejecting each according to the condition and the
/// state carried so far.
#[derive(Debug, Clone)]
pub struct CharSearcher<'a> {
    haystack: &'a [u8],
    cond: CharCond,
    state: bool,
    pos: usize,
    rpos: usize,
}

impl<'a> CharSearcher<'a> {
    /// The condition this searcher scans with.
    pub closed spec fn spec_cond(self) -> CharCond {
        self.cond
    }

    /// The state carried into the next character.
    pub closed spec fn spec_state(self) -> bool {
        self.state
    }
}

impl<'a> Searcher for CharSearcher<'a> {
    closed spec fn hay(&self) -> Seq<u8> {
        self.haystack@
    }

    closed spec fn pos(&self) -> int {
        self.pos as int
    }

    closed spec fn wf(&self) -> bool {
        self.pos <= self.haystack@.len() && self.rpos <= self.haystack@.len()
    }

    open spec fn can_match(&self, s: int, e: int) -> bool {
        0 <= s <= e <= self.hay().len()
    }

    open spec fn can_reject(&self, s: int, e: int) -> bool {
        0 <= s <= e <= self.hay().len()
    }

    closed spec fn work(&self) -> nat {
        if self.pos <= self.haystack@.len() {
            (self.haystack@.len() - self.pos) as nat
        } else {
            0
        }
    }

    proof fn lemma_wf_pos(&self) {
    }

    fn haystack(&self) -> (h: &[u8]) {
        self.haystack
    }

    fn next(&mut self) -> (step: SearchStep)
        ensures
            final(self).spec_cond() == old(self).spec_cond(),
            step matches SearchStep::Match(s, e) ==> ({
                let t = spec_cond_step(
                    old(self).spec_cond(),
                    old(self).hay()[s as int],
                    old(self).spec_state(),
                );
                t.0 && final(self).spec_state() == t.1
            }),
            step matches SearchStep::Reject(s, e) ==> ({
                let t = spec_cond_step(
                    old(self).spec_cond(),
                    old(self).hay()[s as int],
                    old(self).spec_state(),
                );
                !t.0 && final(self).spec_state() == t.1
            }),
            step matches SearchStep::Match(s, e)
                ==> e == s + step_len_at(old(self).hay(), s as int),
            step matches SearchStep::Reject(s, e)
                ==> e == s + step_len_at(old(self).hay(), s as int),
            step is Done ==> final(self).spec_state() == old(self).spec_state(),
            final(self).rpos() == old(self).rpos(),
            final(self).rwf(),
    {
        if self.pos >= self.haystack.len() {
            return SearchStep::Done;
        }

        let start: usize = self.pos;
        let l: usize = char_step_len(self.haystack, start);
        let end: usize = start + l;
        self.pos = end;

        let t = cond_step(self.cond, self.haystack[start], self.state);
        self.state = t.1;
        if t.0 {
            SearchStep::Match(start, end)
        } else {
            SearchStep::Reject(start, end)
        }
    }
}

impl<'a> ReverseSearcher for CharSearcher<'a> {
    closed spec fn rpos(&self) -> int {
        self.rpos as int
    }

    closed spec fn rwf(&self) -> bool {
        true
    }

    closed spec fn rwork(&self) -> nat {
        self.rpos as nat
    }

    proof fn lemma_rwf_pos(&self) {
    }

    fn next_back(&mut self) -> (step: SearchStep)
        ensures
            final(self).spec_cond() == old(self).spec_cond(),
            step matches SearchStep::Match(s, e) ==> ({
                let t = spec_cond_step(
                    old(self).spec_cond(),
                    old(self).hay()[s as int],
                    old(self).spec_state(),
                );
                t.0 && final(self).spec_state() == t.1
            }),
            step matches SearchStep::Reject(s, e) ==> ({
                let t = spec_cond_step(
                    old(self).spec_cond(),
                    old(self).hay()[s as int],
                    old(self).spec_state(),
                );
                !t.0 && final(self).spec_state() == t.1
            }),
            step matches SearchStep::Match(s, e)
                ==> s == e - step_back_len_at(old(self).hay(), e as int),
            step matches SearchStep::Reject(s, e)
                ==> s == e - step_back_len_at(old(self).hay(), e as int),
            step is Done ==> final(self).spec_state() == old(self).spec_state(),
    {
        if self.rpos == 0 {
            return SearchStep::Done;
        }

        let i: usize = self.rpos;
        let k: usize = char_step_back_len(self.haystack, i);
        let start: usize = i - k;
        self.rpos = start;

        let t = cond_step(self.cond, self.haystack[start], self.state);
        self.state = t.1;
        if t.0 {
            SearchStep::Match(start, i)
        } else {
            SearchStep::Reject(start, i)
        }
    }
}

} // verus!

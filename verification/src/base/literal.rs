//! The literal-text leaf searcher: matches every (non-overlapping,
//! leftmost) occurrence of a fixed byte needle.
//!
//! Between matches the haystack is rejected one character at a time.  An
//! empty needle matches a zero-width span at every character boundary,
//! alternating with one-character rejects, and once more at the end of the
//! haystack.

use vstd::prelude::*;

use crate::base::chars::{char_step_len, step_len_at};
use crate::search::{Pattern, SearchStep, Searcher};

verus! {

/// Whether `needle` occurs in `h` starting at position `i`.
pub open spec fn lit_match_at(h: Seq<u8>, needle: Seq<u8>, i: int) -> bool {
    &&& 0 <= i
    &&& i + needle.len() <= h.len()
    &&& h.subrange(i, i + needle.len()) == needle
}

fn lit_matches_here(h: &[u8], needle: &Vec<u8>, i: usize) -> (r: bool)
    requires
        i <= h@.len(),
    ensures
        r == lit_match_at(h@, needle@, i as int),
{
    let n: usize = needle.len();
    if n > h.len() - i {
        return false;
    }

    let mut j: usize = 0;
    while j < n
        invariant
            j <= n,
            n == needle@.len(),
            i + n <= h@.len(),
            h@.len() <= usize::MAX,
            forall|k: int| 0 <= k < j ==> h@[i + k] == needle@[k],
        decreases n - j,
    {
        if h[i + j] != needle[j] {
            proof {
                let sub = h@.subrange(i as int, i as int + n as int);
                assert(sub.len() == n);
                assert(sub[j as int] == h@[i + j]);
            }
            return false;
        }
        j = j + 1;
    }

    proof {
        assert(h@.subrange(i as int, i as int + n as int) =~= needle@);
    }
    true
}

/// A pattern matching each occurrence of a literal byte needle.
#[derive(Debug)]
pub struct StrPattern {
    needle: Vec<u8>,
}

impl StrPattern {
    /// The needle this pattern searches for.
    pub closed spec fn spec_needle(self) -> Seq<u8> {
        self.needle@
    }

    /// Constructs a pattern searching for `needle`.
    pub fn new(needle: Vec<u8>) -> (r: Self)
        ensures
            r.spec_needle() == needle@,
    {
        StrPattern { needle }
    }
}

impl<'a> Pattern<'a> for StrPattern {
    type Searcher = StrSearcher<'a>;

    fn into_searcher(self, haystack: &'a [u8]) -> (s: Self::Searcher)
        ensures
            s.spec_needle() == self.spec_needle(),
    {
        StrSearcher { haystack, needle: self.needle, pos: 0, zero_width: false }
    }
}

/// The searcher of a [`StrPattern`].
#[derive(Debug)]
pub struct StrSearcher<'a> {
    haystack: &'a [u8],
    needle: Vec<u8>,
    pos: usize,
    /// A zero-width match has just been emitted at `pos` (empty needle
    /// only), so the next step must move on instead of matching again.
    zero_width: bool,
}

impl<'a> StrSearcher<'a> {
    /// The needle this searcher searches for.
    pub closed spec fn spec_needle(self) -> Seq<u8> {
        self.needle@
    }
}

impl<'a> Searcher for StrSearcher<'a> {
    closed spec fn hay(&self) -> Seq<u8> {
        self.haystack@
    }

    closed spec fn pos(&self) -> int {
        self.pos as int
    }

    closed spec fn wf(&self) -> bool {
        &&& self.pos <= self.haystack@.len()
        &&& (self.zero_width ==> self.needle@.len() == 0)
    }

    open spec fn can_match(&self, s: int, e: int) -> bool {
        &&& lit_match_at(self.hay(), self.spec_needle(), s)
        &&& e == s + self.spec_needle().len()
    }

    open spec fn can_reject(&self, s: int, e: int) -> bool {
        &&& self.spec_needle().len() == 0 || !lit_match_at(self.hay(), self.spec_needle(), s)
        &&& 0 <= s < self.hay().len()
        &&& e == s + step_len_at(self.hay(), s)
    }

    closed spec fn work(&self) -> nat {
        ((if self.pos <= self.haystack@.len() {
            2 * (self.haystack@.len() - self.pos)
        } else {
            0
        }) + (if self.zero_width {
            0int
        } else {
            1int
        })) as nat
    }

    proof fn lemma_wf_pos(&self) {
    }

    fn haystack(&self) -> (h: &[u8]) {
        self.haystack
    }

    fn next(&mut self) -> (step: SearchStep) {
        let n: usize = self.needle.len();

        if self.pos >= self.haystack.len() {
            if n == 0 && !self.zero_width {
                self.zero_width = true;
                proof {
                    assert(self.haystack@.subrange(self.pos as int, self.pos as int)
                        =~= self.needle@);
                }
                return SearchStep::Match(self.pos, self.pos);
            }
            return SearchStep::Done;
        }

        let start: usize = self.pos;
        if !self.zero_width && lit_matches_here(self.haystack, &self.needle, start) {
            if n == 0 {
                self.zero_width = true;
                return SearchStep::Match(start, start);
            }
            self.pos = start + n;
            return SearchStep::Match(start, self.pos);
        }

        self.zero_width = false;
        let l: usize = char_step_len(self.haystack, start);
        self.pos = start + l;
        SearchStep::Reject(start, self.pos)
    }
}

} // verus!

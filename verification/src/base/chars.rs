//! Character stepping and the character-class leaf searcher.
//!
//! The haystack is a UTF-8 byte buffer.  Leaf searchers walk it one
//! character at a time: the width of the character at a position is read
//! from its leading byte, so every emitted span of a leaf searcher starts
//! and ends on a character boundary of a well-formed haystack.

use vstd::prelude::*;

use crate::search::{Pattern, SearchStep, Searcher};

verus! {

/// The width in bytes of the UTF-8 character introduced by the leading
/// byte `b`.  A stray continuation byte counts as a single-byte step, so
/// stepping is total on arbitrary byte buffers.
pub open spec fn char_len_of(b: u8) -> int {
    if b < 0xC0 {
        1
    } else if b < 0xE0 {
        2
    } else if b < 0xF0 {
        3
    } else {
        4
    }
}

/// The width of the character step taken at position `i` of `h`, clipped
/// to the end of the buffer.
pub open spec fn step_len_at(h: Seq<u8>, i: int) -> int
    recommends
        0 <= i < h.len(),
{
    if i + char_len_of(h[i]) <= h.len() {
        char_len_of(h[i])
    } else {
        h.len() - i
    }
}

/// Advances one character: returns the width of the character step at
/// position `i`.
pub fn char_step_len(h: &[u8], i: usize) -> (l: usize)
    requires
        i < h@.len(),
    ensures
        l == step_len_at(h@, i as int),
        1 <= l,
        i + l <= h@.len(),
{
    let b: u8 = h[i];
    let l: usize = if b < 0xC0 {
        1
    } else if b < 0xE0 {
        2
    } else if b < 0xF0 {
        3
    } else {
        4
    };
    if l <= h.len() - i {
        l
    } else {
        h.len() - i
    }
}

fn byte_width(b: u8) -> (w: usize)
    ensures
        w == char_len_of(b),
{
    if b < 0xC0 {
        1
    } else if b < 0xE0 {
        2
    } else if b < 0xF0 {
        3
    } else {
        4
    }
}

fn is_continuation(b: u8) -> (r: bool)
    ensures
        r == (0x80 <= b < 0xC0),
{
    0x80 <= b && b < 0xC0
}

/// The width of the character step ending at position `i` of `h`, read
/// from its trailing continuation bytes and their leading byte.  A
/// malformed trailer counts as a single-byte step.
pub open spec fn step_back_len_at(h: Seq<u8>, i: int) -> int
    recommends
        0 < i <= h.len(),
{
    if !(0x80 <= h[i - 1] < 0xC0) {
        1
    } else if i >= 2 && !(0x80 <= h[i - 2] < 0xC0) {
        if char_len_of(h[i - 2]) == 2 && h[i - 2] >= 0xC0 {
            2
        } else {
            1
        }
    } else if i >= 3 && !(0x80 <= h[i - 3] < 0xC0) {
        if char_len_of(h[i - 3]) == 3 && h[i - 3] >= 0xC0 {
            3
        } else {
            1
        }
    } else if i >= 4 && !(0x80 <= h[i - 4] < 0xC0) {
        if char_len_of(h[i - 4]) == 4 && h[i - 4] >= 0xC0 {
            4
        } else {
            1
        }
    } else {
        1
    }
}

/// Steps one character backwards: the width of the character ending at
/// position `i`, read from its trailing continuation bytes and their
/// leading byte.  A malformed trailer counts as a single-byte step, so
/// stepping is total on arbitrary byte buffers.
pub fn char_step_back_len(h: &[u8], i: usize) -> (k: usize)
    requires
        0 < i <= h@.len(),
    ensures
        k == step_back_len_at(h@, i as int),
        1 <= k <= i,
{
    if !is_continuation(h[i - 1]) {
        return 1;
    }
    if i >= 2 && !is_continuation(h[i - 2]) {
        if byte_width(h[i - 2]) == 2 && h[i - 2] >= 0xC0 {
            return 2;
        }
        return 1;
    }
    if i >= 3 && !is_continuation(h[i - 3]) {
        if byte_width(h[i - 3]) == 3 && h[i - 3] >= 0xC0 {
            return 3;
        }
        return 1;
    }
    if i >= 4 && !is_continuation(h[i - 4]) {
        if byte_width(h[i - 4]) == 4 && h[i - 4] >= 0xC0 {
            return 4;
        }
        return 1;
    }
    1
}

/// A class of characters, decided by the leading byte of a character.
/// The ASCII classes never match a multi-byte character.
#[derive(Debug, Clone, Copy, PartialEq, Eq, Structural)]
pub enum CharClass {
    /// Any character.
    Any,
    /// An ASCII decimal digit, `0` to `9`.
    AsciiDigit,
    /// An ASCII letter, `A` to `Z` or `a` to `z`.
    AsciiAlphabetic,
    /// An ASCII lowercase letter, `a` to `z`.
    AsciiLowercase,
}

/// Whether a character with leading byte `b` belongs to `class`.
pub open spec fn class_matches_byte(class: CharClass, b: u8) -> bool {
    match class {
        CharClass::Any => true,
        CharClass::AsciiDigit => 0x30 <= b <= 0x39,
        CharClass::AsciiAlphabetic => (0x41 <= b <= 0x5A) || (0x61 <= b <= 0x7A),
        CharClass::AsciiLowercase => 0x61 <= b <= 0x7A,
    }
}

/// Whether the character starting at position `i` of `h` belongs to `class`.
pub open spec fn class_matches_at(class: CharClass, h: Seq<u8>, i: int) -> bool
    recommends
        0 <= i < h.len(),
{
    class_matches_byte(class, h[i])
}

fn class_matches(class: CharClass, b: u8) -> (r: bool)
    ensures
        r == class_matches_byte(class, b),
{
    match class {
        CharClass::Any => true,
        CharClass::AsciiDigit => 0x30 <= b && b <= 0x39,
        CharClass::AsciiAlphabetic => (0x41 <= b && b <= 0x5A) || (0x61 <= b && b <= 0x7A),
        CharClass::AsciiLowercase => 0x61 <= b && b <= 0x7A,
    }
}

/// Whether a character with leading byte `b` belongs to any of `classes`.
pub open spec fn any_class_matches_byte(classes: Seq<CharClass>, b: u8) -> bool {
    exists|j: int| 0 <= j < classes.len() && #[trigger] class_matches_byte(classes[j], b)
}

fn any_class_matches(classes: &Vec<CharClass>, b: u8) -> (r: bool)
    ensures
        r == any_class_matches_byte(classes@, b),
{
    let mut j: usize = 0;
    while j < classes.len()
        invariant
            j <= classes@.len(),
            forall|jj: int| 0 <= jj < j ==> !class_matches_byte(#[trigger] classes@[jj], b),
        decreases classes@.len() - j,
    {
        if class_matches(classes[j], b) {
            return true;
        }
        j = j + 1;
    }
    false
}

/// A pattern matching every single character of a class.
#[derive(Debug, Clone, Copy, PartialEq, Eq, Structural)]
pub struct ClassPattern {
    class: CharClass,
}

impl ClassPattern {
    /// The class this pattern matches.
    pub closed spec fn spec_class(self) -> CharClass {
        self.class
    }

    /// Constructs a pattern matching each character of `class`.
    pub fn new(class: CharClass) -> (r: Self)
        ensures
            r.spec_class() == class,
    {
        ClassPattern { class }
    }
}

impl<'a> Pattern<'a> for ClassPattern {
    type Searcher = ClassSearcher<'a>;

    fn into_searcher(self, haystack: &'a [u8]) -> (s: Self::Searcher)
        ensures
            s.spec_class() == self.spec_class(),
    {
        ClassSearcher { haystack, class: self.class, pos: 0 }
    }
}

/// The searcher of a [`ClassPattern`]: walks the haystack character by
/// character, matching exactly the characters of its class.
#[derive(Debug, Clone)]
pub struct ClassSearcher<'a> {
    haystack: &'a [u8],
    class: CharClass,
    pos: usize,
}

impl<'a> ClassSearcher<'a> {
    /// The class this searcher matches.
    pub closed spec fn spec_class(self) -> CharClass {
        self.class
    }
}

impl<'a> Searcher for ClassSearcher<'a> {
    closed spec fn hay(&self) -> Seq<u8> {
        self.haystack@
    }

    closed spec fn pos(&self) -> int {
        self.pos as int
    }

    closed spec fn wf(&self) -> bool {
        self.pos <= self.haystack@.len()
    }

    open spec fn can_match(&self, s: int, e: int) -> bool {
        &&& 0 <= s < self.hay().len()
        &&& class_matches_at(self.spec_class(), self.hay(), s)
        &&& e == s + step_len_at(self.hay(), s)
    }

    open spec fn can_reject(&self, s: int, e: int) -> bool {
        &&& 0 <= s < self.hay().len()
        &&& !class_matches_at(self.spec_class(), self.hay(), s)
        &&& e == s + step_len_at(self.hay(), s)
    }

    closed spec fn work(&self) -> nat {
        if self.pos <= self.haystack@.len() {
            (self.haystack@.len() - self.pos) as nat
        } else {
            0
        }
    }

    proof fn lemma_wf_pos(&self) {
    }

    fn haystack(&self) -> (h: &[u8]) {
        self.haystack
    }

    fn next(&mut self) -> (step: SearchStep) {
        if self.pos >= self.haystack.len() {
            return SearchStep::Done;
        }

        let start: usize = self.pos;
        let l: usize = char_step_len(self.haystack, start);
        let end: usize = start + l;
        self.pos = end;

        if class_matches(self.class, self.haystack[start]) {
            SearchStep::Match(start, end)
        } else {
            SearchStep::Reject(start, end)
        }
    }
}

/// A pattern matching every single character that belongs to any of a
/// list of classes, the compound form of [`ClassPattern`]: the classes
/// are tried in order with a short-circuiting or.
#[derive(Debug, Clone)]
pub struct AnyOfPattern {
    classes: Vec<CharClass>,
}

impl AnyOfPattern {
    /// The classes this pattern matches.
    pub closed spec fn spec_classes(self) -> Seq<CharClass> {
        self.classes@
    }

    /// Constructs a pattern matching each character that belongs to any
    /// of `classes`.
    pub fn new(classes: Vec<CharClass>) -> (r: Self)
        ensures
            r.spec_classes() == classes@,
    {
        AnyOfPattern { classes }
    }
}

impl<'a> Pattern<'a> for AnyOfPattern {
    type Searcher = AnyOfSearcher<'a>;

    fn into_searcher(self, haystack: &'a [u8]) -> (s: Self::Searcher)
        ensures
            s.spec_classes() == self.spec_classes(),
    {
        AnyOfSearcher { haystack, classes: self.classes, pos: 0 }
    }
}

/// The searcher of an [`AnyOfPattern`]: walks the haystack character by
/// character, matching exactly the characters belonging to any of its
/// classes.
#[derive(Debug)]
pub struct AnyOfSearcher<'a> {
    haystack: &'a [u8],
    classes: Vec<CharClass>,
    pos: usize,
}

impl<'a> AnyOfSearcher<'a> {
    /// The classes this searcher matches.
    pub closed spec fn spec_classes(self) -> Seq<CharClass> {
        self.classes@
    }
}

impl<'a> Searcher for AnyOfSearcher<'a> {
    closed spec fn hay(&self) -> Seq<u8> {
        self.haystack@
    }

    closed spec fn pos(&self) -> int {
        self.pos as int
    }

    closed spec fn wf(&self) -> bool {
        self.pos <= self.haystack@.len()
    }

    open spec fn can_match(&self, s: int, e: int) -> bool {
        &&& 0 <= s < self.hay().len()
        &&& any_class_matches_byte(self.spec_classes(), self.hay()[s])
        &&& e == s + step_len_at(self.hay(), s)
    }

    open spec fn can_reject(&self, s: int, e: int) -> bool {
        &&& 0 <= s < self.hay().len()
        &&& !any_class_matches_byte(self.spec_classes(), self.hay()[s])
        &&& e == s + step_len_at(self.hay(), s)
    }

    closed spec fn work(&self) -> nat {
        if self.pos <= self.haystack@.len() {
            (self.haystack@.len() - self.pos) as nat
        } else {
            0
        }
    }

    proof fn lemma_wf_pos(&self) {
    }

    fn haystack(&self) -> (h: &[u8]) {
        self.haystack
    }

    fn next(&mut self) -> (step: SearchStep) {
        if self.pos >= self.haystack.len() {
            return SearchStep::Done;
        }

        let start: usize = self.pos;
        let l: usize = char_step_len(self.haystack, start);
        let end: usize = start + l;
        self.pos = end;

        if any_class_matches(&self.classes, self.haystack[start]) {
            SearchStep::Match(start, end)
        } else {
            SearchStep::Reject(start, end)
        }
    }
}

} // verus!

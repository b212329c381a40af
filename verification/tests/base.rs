use pattern_adapters::base::chars::{AnyOfPattern, CharClass, ClassPattern};
use pattern_adapters::base::literal::StrPattern;
use pattern_adapters::search::{Pattern, SearchStep, Searcher};

fn lit(needle: &str) -> StrPattern {
    StrPattern::new(needle.as_bytes().to_vec())
}

#[test]
fn test_literal_non_overlapping() {
    let haystack = "aaa".as_bytes();
    let mut searcher = lit("aa").into_searcher(haystack);

    assert_eq!(searcher.next(), SearchStep::Match(0, 2));
    assert_eq!(searcher.next(), SearchStep::Reject(2, 3));
    assert_eq!(searcher.next(), SearchStep::Done);
}

#[test]
fn test_literal_empty_needle() {
    let haystack = "ab".as_bytes();
    let mut searcher = lit("").into_searcher(haystack);

    // the empty needle matches a zero-width span at every character
    // boundary, including the end of the haystack
    assert_eq!(searcher.next(), SearchStep::Match(0, 0));
    assert_eq!(searcher.next(), SearchStep::Reject(0, 1));
    assert_eq!(searcher.next(), SearchStep::Match(1, 1));
    assert_eq!(searcher.next(), SearchStep::Reject(1, 2));
    assert_eq!(searcher.next(), SearchStep::Match(2, 2));
    assert_eq!(searcher.next(), SearchStep::Done);
    assert_eq!(searcher.next(), SearchStep::Done);
}

#[test]
fn test_literal_multibyte_rejects() {
    // rejected characters are skipped whole, never split mid-codepoint
    let text = "\u{e4}a\u{1f600}a";
    let haystack = text.as_bytes();
    let mut searcher = lit("a").into_searcher(haystack);

    assert_eq!(searcher.next(), SearchStep::Reject(0, 2));
    assert_eq!(searcher.next(), SearchStep::Match(2, 3));
    assert_eq!(searcher.next(), SearchStep::Reject(3, 7));
    assert_eq!(searcher.next(), SearchStep::Match(7, 8));
    assert_eq!(searcher.next(), SearchStep::Done);
    assert!(text.is_char_boundary(2) && text.is_char_boundary(3) && text.is_char_boundary(7));
}

#[test]
fn test_class_digits() {
    let haystack = "a1b22".as_bytes();
    let mut searcher = ClassPattern::new(CharClass::AsciiDigit).into_searcher(haystack);

    assert_eq!(searcher.next(), SearchStep::Reject(0, 1));
    assert_eq!(searcher.next(), SearchStep::Match(1, 2));
    assert_eq!(searcher.next(), SearchStep::Reject(2, 3));
    assert_eq!(searcher.next(), SearchStep::Match(3, 4));
    assert_eq!(searcher.next(), SearchStep::Match(4, 5));
    assert_eq!(searcher.next(), SearchStep::Done);
}

#[test]
fn test_class_any_spans_multibyte() {
    let haystack = "a\u{e4}".as_bytes();
    let mut searcher = ClassPattern::new(CharClass::Any).into_searcher(haystack);

    assert_eq!(searcher.next(), SearchStep::Match(0, 1));
    assert_eq!(searcher.next(), SearchStep::Match(1, 3));
    assert_eq!(searcher.next(), SearchStep::Done);
}

#[test]
fn test_any_of_classes() {
    let haystack = "a1 -".as_bytes();
    let classes = vec![CharClass::AsciiDigit, CharClass::AsciiLowercase];
    let mut searcher = AnyOfPattern::new(classes).into_searcher(haystack);

    assert_eq!(searcher.next(), SearchStep::Match(0, 1));
    assert_eq!(searcher.next(), SearchStep::Match(1, 2));
    assert_eq!(searcher.next(), SearchStep::Reject(2, 3));
    assert_eq!(searcher.next(), SearchStep::Reject(3, 4));
    assert_eq!(searcher.next(), SearchStep::Done);

    // with no classes at all, nothing matches
    let mut empty = AnyOfPattern::new(Vec::new()).into_searcher(haystack);
    assert_eq!(empty.next(), SearchStep::Reject(0, 1));
}

#[test]
fn test_haystack_accessor() {
    let haystack = "abc".as_bytes();
    let searcher = lit("b").into_searcher(haystack);
    assert_eq!(searcher.haystack(), haystack);
}

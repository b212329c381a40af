use pattern_adapters::base::literal::StrPattern;
use pattern_adapters::logic::{LOrPattern, ROrPattern};
use pattern_adapters::search::{Pattern, SearchStep, Searcher};

fn lit(needle: &str) -> StrPattern {
    StrPattern::new(needle.as_bytes().to_vec())
}

fn assert_integrity<'a, P: Pattern<'a>>(haystack: &'a str, pattern: P) {
    let bytes = haystack.as_bytes();
    let mut searcher = pattern.into_searcher(bytes);

    let mut last_end = 0;
    loop {
        match searcher.next() {
            SearchStep::Match(start, end) | SearchStep::Reject(start, end) => {
                assert!(start <= end);
                // ensure that there are no spaces between the steps
                assert_eq!(last_end, start);
                last_end = end;

                // the indices must lie on valid char boundaries:
                assert!(haystack.is_char_boundary(start));
                assert!(haystack.is_char_boundary(end));
            }
            SearchStep::Done => break,
        }
    }

    for _ in 0..3 {
        assert_eq!(searcher.next(), SearchStep::Done);
    }
}

#[test]
fn test_searcher_same_size() {
    let haystack = "a b c a b b a a b".as_bytes();
    let mut searcher = LOrPattern::new(lit("a"), lit("b")).into_searcher(haystack);

    assert_eq!(searcher.next(), SearchStep::Match(0, 1));
    assert_eq!(searcher.next(), SearchStep::Reject(1, 2));
    assert_eq!(searcher.next(), SearchStep::Match(2, 3));
    assert_eq!(searcher.next(), SearchStep::Reject(3, 6));
    assert_eq!(searcher.next(), SearchStep::Match(6, 7));
    assert_eq!(searcher.next(), SearchStep::Reject(7, 8));
    assert_eq!(searcher.next(), SearchStep::Match(8, 9));
    assert_eq!(searcher.next(), SearchStep::Reject(9, 10));
    assert_eq!(searcher.next(), SearchStep::Match(10, 11));
    assert_eq!(searcher.next(), SearchStep::Reject(11, 12));
    assert_eq!(searcher.next(), SearchStep::Match(12, 13));
    assert_eq!(searcher.next(), SearchStep::Reject(13, 14));
    assert_eq!(searcher.next(), SearchStep::Match(14, 15));
    assert_eq!(searcher.next(), SearchStep::Reject(15, 16));
    assert_eq!(searcher.next(), SearchStep::Match(16, 17));
    assert_eq!(searcher.next(), SearchStep::Done);
    assert_eq!(searcher.next(), SearchStep::Done);
    assert_eq!(searcher.next(), SearchStep::Done);
}

#[test]
fn test_searcher_left_smaller() {
    let haystack = "abcaabbaab".as_bytes();
    let mut searcher = LOrPattern::new(lit("a"), lit("ab")).into_searcher(haystack);

    assert_eq!(searcher.next(), SearchStep::Match(0, 1));
    assert_eq!(searcher.next(), SearchStep::Reject(1, 3));
    assert_eq!(searcher.next(), SearchStep::Match(3, 4));
    assert_eq!(searcher.next(), SearchStep::Match(4, 5));
    assert_eq!(searcher.next(), SearchStep::Reject(5, 7));
    assert_eq!(searcher.next(), SearchStep::Match(7, 8));
    assert_eq!(searcher.next(), SearchStep::Match(8, 9));
    assert_eq!(searcher.next(), SearchStep::Reject(9, 10));
    assert_eq!(searcher.next(), SearchStep::Done);
    assert_eq!(searcher.next(), SearchStep::Done);
    assert_eq!(searcher.next(), SearchStep::Done);
}

#[test]
fn test_searcher_right_smaller() {
    let haystack = "abcaabbaab".as_bytes();
    let mut searcher = LOrPattern::new(lit("ab"), lit("a")).into_searcher(haystack);

    assert_eq!(searcher.next(), SearchStep::Match(0, 2));
    assert_eq!(searcher.next(), SearchStep::Reject(2, 3));
    assert_eq!(searcher.next(), SearchStep::Match(3, 4));
    assert_eq!(searcher.next(), SearchStep::Match(4, 6));
    assert_eq!(searcher.next(), SearchStep::Reject(6, 7));
    assert_eq!(searcher.next(), SearchStep::Match(7, 8));
    assert_eq!(searcher.next(), SearchStep::Match(8, 10));
    assert_eq!(searcher.next(), SearchStep::Done);
    assert_eq!(searcher.next(), SearchStep::Done);
    assert_eq!(searcher.next(), SearchStep::Done);
}

#[test]
fn test_searcher_unicode_right_larger() {
    let haystack = "\nM\u{e4}ry h\u{e4}d \u{e4} little l\u{e4}mb\n\r\nLittle l\u{e4}mb\n";
    let mut searcher = LOrPattern::new(lit("\r\n"), lit("\n")).into_searcher(haystack.as_bytes());

    assert_eq!(searcher.next(), SearchStep::Match(0, 1));
    assert_eq!(searcher.next(), SearchStep::Reject(1, 27));
    assert_eq!(searcher.next(), SearchStep::Match(27, 28));
    assert_eq!(searcher.next(), SearchStep::Match(28, 30));
    assert_eq!(searcher.next(), SearchStep::Reject(30, 42));
    assert_eq!(searcher.next(), SearchStep::Match(42, 43));
    assert_eq!(searcher.next(), SearchStep::Done);
    assert_eq!(searcher.next(), SearchStep::Done);
    assert_eq!(searcher.next(), SearchStep::Done);
}

#[test]
fn test_searcher_empty_string() {
    let haystack = "".as_bytes();
    let mut searcher = LOrPattern::new(lit("abc"), lit("ab")).into_searcher(haystack);

    assert_eq!(searcher.next(), SearchStep::Done);
    assert_eq!(searcher.next(), SearchStep::Done);
    assert_eq!(searcher.next(), SearchStep::Done);
}

#[test]
fn test_zero_width_conflict() {
    // a zero-width candidate and a real match starting at the same
    // position conflict; the bias selects exactly one of them
    let haystack = "a".as_bytes();

    let mut left = LOrPattern::new(lit(""), lit("a")).into_searcher(haystack);
    assert_eq!(left.next(), SearchStep::Match(0, 0));
    assert_eq!(left.next(), SearchStep::Reject(0, 1));
    assert_eq!(left.next(), SearchStep::Match(1, 1));
    assert_eq!(left.next(), SearchStep::Done);

    // with the cursor at the end of the haystack the alternation is
    // exhausted: a trailing zero-width candidate is not reported
    let mut right = ROrPattern::new(lit(""), lit("a")).into_searcher(haystack);
    assert_eq!(right.next(), SearchStep::Match(0, 1));
    assert_eq!(right.next(), SearchStep::Done);
}

#[test]
fn or_test_fuzzer_failure_01() {
    let haystack = "KJJKKK\u{0}J\u{0}\u{0}\u{0}\u{0}\u{0}\u{0}\u{0}\u{0}\u{0}\u{0}";
    assert_integrity(haystack, LOrPattern::new(lit(""), lit("")));
    assert_integrity(haystack, ROrPattern::new(lit(""), lit("")));
}

use pattern_adapters::base::literal::StrPattern;
use pattern_adapters::logic::{AndPattern, NorPattern};
use pattern_adapters::search::{Pattern, SearchStep, Searcher};

fn lit(needle: &str) -> StrPattern {
    StrPattern::new(needle.as_bytes().to_vec())
}

#[test]
fn test_and_searcher() {
    let haystack = "abcaabbaab".as_bytes();
    let mut searcher = AndPattern::new(lit("ab"), lit("ab")).into_searcher(haystack);

    assert_eq!(searcher.next(), SearchStep::Match(0, 2));
    assert_eq!(searcher.next(), SearchStep::Reject(2, 3));
    assert_eq!(searcher.next(), SearchStep::Reject(3, 4));
    assert_eq!(searcher.next(), SearchStep::Match(4, 6));
    assert_eq!(searcher.next(), SearchStep::Reject(6, 7));
    assert_eq!(searcher.next(), SearchStep::Reject(7, 8));
    assert_eq!(searcher.next(), SearchStep::Match(8, 10));
    assert_eq!(searcher.next(), SearchStep::Done);
}

#[test]
fn patterns_test_fuzzer_failure_01() {
    let haystack = "\nP\u{0}\u{0}\u{0}\u{0}\u{0}\u{0}@\u{0}\u{0}\u{0}\u{0}".as_bytes();
    let needle = "\u{0}\u{0}\u{0}";

    let mut searcher = AndPattern::new(
        StrPattern::new(needle.as_bytes().to_vec()),
        StrPattern::new(needle.as_bytes().to_vec()),
    )
    .into_searcher(haystack);

    // the conjunction is the fixed identity over the alternation, whose
    // reject merging fuses the two adjacent occurrences at 2 and 5 into
    // one span; the trailing run of three is found as well
    assert_eq!(searcher.next(), SearchStep::Reject(0, 1));
    assert_eq!(searcher.next(), SearchStep::Reject(1, 2));
    assert_eq!(searcher.next(), SearchStep::Match(2, 8));
    assert_eq!(searcher.next(), SearchStep::Reject(8, 9));
    assert_eq!(searcher.next(), SearchStep::Match(9, 12));
    assert_eq!(searcher.next(), SearchStep::Reject(12, 13));
    assert_eq!(searcher.next(), SearchStep::Done);
}

#[test]
fn test_nor_searcher() {
    let haystack = "acb".as_bytes();
    let mut searcher = NorPattern::new(lit("a"), lit("b")).into_searcher(haystack);

    // only the `c`, which neither branch matches, is reported as a match
    assert_eq!(searcher.next(), SearchStep::Reject(0, 1));
    assert_eq!(searcher.next(), SearchStep::Match(1, 2));
    assert_eq!(searcher.next(), SearchStep::Reject(2, 3));
    assert_eq!(searcher.next(), SearchStep::Done);
}

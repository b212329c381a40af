use pattern_adapters::base::chars::{CharClass, ClassPattern};
use pattern_adapters::base::literal::StrPattern;
use pattern_adapters::adapters::LimitPattern;
use pattern_adapters::search::{Pattern, SearchStep, Searcher};

#[test]
fn limit_test_simple_search() {
    let haystack = "aaaaaaaa".as_bytes();
    let mut searcher =
        LimitPattern::new(StrPattern::new(b"a".to_vec()), 4).into_searcher(haystack);

    assert_eq!(searcher.next(), SearchStep::Match(0, 1));
    assert_eq!(searcher.next(), SearchStep::Match(1, 2));
    assert_eq!(searcher.next(), SearchStep::Match(2, 3));
    assert_eq!(searcher.next(), SearchStep::Match(3, 4));
    assert_eq!(searcher.next(), SearchStep::Reject(4, 5));
    assert_eq!(searcher.next(), SearchStep::Reject(5, 6));
    assert_eq!(searcher.next(), SearchStep::Reject(6, 7));
    assert_eq!(searcher.next(), SearchStep::Reject(7, 8));
    assert_eq!(searcher.next(), SearchStep::Done);
}

#[test]
fn limit_test_more_remaining_than_needed() {
    let haystack = "abab".as_bytes();
    let mut searcher =
        LimitPattern::new(StrPattern::new(b"ab".to_vec()), 4).into_searcher(haystack);

    assert_eq!(searcher.next(), SearchStep::Match(0, 2));
    assert_eq!(searcher.next(), SearchStep::Match(2, 4));
    assert_eq!(searcher.next(), SearchStep::Done);
}

#[test]
fn test_remaining_zero() {
    let haystack = "this haystack will be completely rejected".as_bytes();
    let mut searcher =
        LimitPattern::new(ClassPattern::new(CharClass::AsciiAlphabetic), 0)
            .into_searcher(haystack);

    for i in 0..haystack.len() {
        assert_eq!(searcher.next(), SearchStep::Reject(i, i + 1));
    }
    assert_eq!(searcher.next(), SearchStep::Done);
}

#[test]
fn limit_test_fuzzer_failure_02() {
    let haystack = "".as_bytes();
    let needle = "";
    let limit = 0;

    let mut searcher =
        LimitPattern::new(StrPattern::new(needle.as_bytes().to_vec()), limit)
            .into_searcher(haystack);

    assert_eq!(searcher.next(), SearchStep::Reject(0, 0));
    assert_eq!(searcher.next(), SearchStep::Done);
    assert_eq!(searcher.next(), SearchStep::Done);
    assert_eq!(searcher.next(), SearchStep::Done);
}

#[test]
fn test_limited_to_two() {
    let haystack = "ababab".as_bytes();
    let mut searcher =
        LimitPattern::new(StrPattern::new(b"ab".to_vec()), 2).into_searcher(haystack);

    assert_eq!(searcher.next(), SearchStep::Match(0, 2));
    assert_eq!(searcher.next(), SearchStep::Match(2, 4));
    // this would be the third match, but only 2 matches are allowed:
    assert_eq!(searcher.next(), SearchStep::Reject(4, 6));
    assert_eq!(searcher.next(), SearchStep::Done);
}

#[test]
fn test_remaining_counts_down() {
    let haystack = "aaa".as_bytes();
    let mut searcher =
        LimitPattern::new(StrPattern::new(b"a".to_vec()), 2).into_searcher(haystack);

    assert_eq!(searcher.remaining(), 2);
    assert!(!searcher.is_exhausted());
    assert_eq!(searcher.next(), SearchStep::Match(0, 1));
    assert_eq!(searcher.remaining(), 1);
    assert_eq!(searcher.next(), SearchStep::Match(1, 2));
    assert_eq!(searcher.remaining(), 0);
    assert!(searcher.is_exhausted());
    assert_eq!(searcher.next(), SearchStep::Reject(2, 3));
    assert_eq!(searcher.remaining(), 0);
}

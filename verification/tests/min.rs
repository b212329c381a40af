use pattern_adapters::base::chars::{CharClass, ClassPattern};
use pattern_adapters::adapters::MinPattern;
use pattern_adapters::search::{Pattern, SearchStep, Searcher};

#[test]
fn test_min_exact_runs() {
    let haystack = "12a345".as_bytes();
    let mut searcher =
        MinPattern::new(ClassPattern::new(CharClass::AsciiDigit), 2).into_searcher(haystack);

    // exactly two digits fuse into a match; a lone leftover is rejected
    assert_eq!(searcher.next(), SearchStep::Match(0, 2));
    assert_eq!(searcher.next(), SearchStep::Reject(2, 3));
    assert_eq!(searcher.next(), SearchStep::Match(3, 5));
    assert_eq!(searcher.next(), SearchStep::Reject(5, 6));
    assert_eq!(searcher.next(), SearchStep::Done);
}

#[test]
fn test_min_run_too_short() {
    let haystack = "1a".as_bytes();
    let mut searcher =
        MinPattern::new(ClassPattern::new(CharClass::AsciiDigit), 2).into_searcher(haystack);

    assert_eq!(searcher.next(), SearchStep::Reject(0, 1));
    assert_eq!(searcher.next(), SearchStep::Reject(1, 2));
    assert_eq!(searcher.next(), SearchStep::Done);
}

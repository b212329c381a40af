use pattern_adapters::adapters::FusedPattern;
use pattern_adapters::base::literal::StrPattern;
use pattern_adapters::search::{Pattern, SearchStep, Searcher};

#[test]
fn fused_test_simple() {
    let haystack = "a".as_bytes();
    let mut searcher = FusedPattern::new(StrPattern::new(b"a".to_vec())).into_searcher(haystack);

    assert_eq!(searcher.next(), SearchStep::Match(0, 1));
    assert_eq!(searcher.next(), SearchStep::Done);
    // after finishing the searcher should not yield anything
    for _ in 0..20 {
        assert_eq!(searcher.next(), SearchStep::Done);
    }
}

#[test]
fn fused_test_exhaust() {
    let haystack = "abcab".as_bytes();
    let mut searcher = FusedPattern::new(StrPattern::new(b"ab".to_vec())).into_searcher(haystack);

    searcher.exhaust();
    assert_eq!(searcher.next(), SearchStep::Done);
    assert_eq!(searcher.next(), SearchStep::Done);
}

use pattern_adapters::base::literal::StrPattern;
use pattern_adapters::adapters::simplify::SimplifyingPattern;
use pattern_adapters::search::{Pattern, SearchStep, Searcher};

#[test]
fn simplify_test_search() {
    let haystack = "aabbbba".as_bytes();
    let mut searcher =
        SimplifyingPattern::new(StrPattern::new(b"a".to_vec())).into_searcher(haystack);

    assert_eq!(searcher.next(), SearchStep::Match(0, 1));
    assert_eq!(searcher.next(), SearchStep::Match(1, 2));
    assert_eq!(searcher.next(), SearchStep::Reject(2, 6));
    assert_eq!(searcher.next(), SearchStep::Match(6, 7));
    assert_eq!(searcher.next(), SearchStep::Done);
}

use pattern_adapters::base::literal::StrPattern;
use pattern_adapters::adapters::greedy_reject::SimplifyingPattern;
use pattern_adapters::search::{Pattern, SearchStep, Searcher};

#[test]
fn greedy_reject_test_search() {
    let haystack = "aabbbba".as_bytes();
    let mut searcher =
        SimplifyingPattern::new(StrPattern::new(b"a".to_vec())).into_searcher(haystack);

    assert_eq!(searcher.next(), SearchStep::Match(0, 1));
    assert_eq!(searcher.next(), SearchStep::Match(1, 2));
    assert_eq!(searcher.next(), SearchStep::Reject(2, 6));
    assert_eq!(searcher.next(), SearchStep::Match(6, 7));
    assert_eq!(searcher.next(), SearchStep::Done);
}

#[test]
fn greedy_reject_test_trailing_reject() {
    let haystack = "aabbb".as_bytes();
    let mut searcher =
        SimplifyingPattern::new(StrPattern::new(b"a".to_vec())).into_searcher(haystack);

    assert_eq!(searcher.next(), SearchStep::Match(0, 1));
    assert_eq!(searcher.next(), SearchStep::Match(1, 2));
    // the tail without a match is rejected in one piece before `Done`
    assert_eq!(searcher.next(), SearchStep::Reject(2, 5));
    assert_eq!(searcher.next(), SearchStep::Done);
    assert_eq!(searcher.index(), 5);
}

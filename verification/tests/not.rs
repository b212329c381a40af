use pattern_adapters::base::literal::StrPattern;
use pattern_adapters::logic::NotPattern;
use pattern_adapters::search::{Pattern, SearchStep, Searcher};

#[test]
fn test_searcher() {
    let haystack = "aababbaa a".as_bytes();
    let mut searcher = NotPattern::new(StrPattern::new(b"a".to_vec())).into_searcher(haystack);

    assert_eq!(searcher.next(), SearchStep::Reject(0, 1));
    assert_eq!(searcher.next(), SearchStep::Reject(1, 2));
    assert_eq!(searcher.next(), SearchStep::Match(2, 3));
    assert_eq!(searcher.next(), SearchStep::Reject(3, 4));
    assert_eq!(searcher.next(), SearchStep::Match(4, 5));
    assert_eq!(searcher.next(), SearchStep::Match(5, 6));
    assert_eq!(searcher.next(), SearchStep::Reject(6, 7));
    assert_eq!(searcher.next(), SearchStep::Reject(7, 8));
    assert_eq!(searcher.next(), SearchStep::Match(8, 9));
    assert_eq!(searcher.next(), SearchStep::Reject(9, 10));
    assert_eq!(searcher.next(), SearchStep::Done);
    assert_eq!(searcher.next(), SearchStep::Done);
    assert_eq!(searcher.next(), SearchStep::Done);
}

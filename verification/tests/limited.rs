use pattern_adapters::base::chars::{CharClass, ClassPattern};
use pattern_adapters::base::literal::StrPattern;
use pattern_adapters::adapters::LimitedPattern;
use pattern_adapters::search::{Pattern, SearchStep, Searcher};

#[test]
fn limited_test_simple_search() {
    let haystack = "aaaaaaaa".as_bytes();
    let mut searcher =
        LimitedPattern::new(StrPattern::new(b"a".to_vec()), 4).into_searcher(haystack);

    assert_eq!(searcher.index(), 0);
    assert_eq!(searcher.next(), SearchStep::Match(0, 1));
    assert_eq!(searcher.index(), 1);
    assert_eq!(searcher.next(), SearchStep::Match(1, 2));
    assert_eq!(searcher.index(), 2);
    assert_eq!(searcher.next(), SearchStep::Match(2, 3));
    assert_eq!(searcher.index(), 3);
    assert_eq!(searcher.next(), SearchStep::Match(3, 4));
    assert_eq!(searcher.index(), 4);
    assert_eq!(searcher.next(), SearchStep::Reject(4, 8));
    assert_eq!(searcher.index(), 8);
    assert_eq!(searcher.next(), SearchStep::Done);
    assert_eq!(searcher.index(), 8);
    assert_eq!(searcher.next(), SearchStep::Done);
    assert_eq!(searcher.index(), 8);
    assert_eq!(searcher.next(), SearchStep::Done);
}

#[test]
fn limited_test_more_remaining_than_needed() {
    let haystack = "abab".as_bytes();
    let mut searcher =
        LimitedPattern::new(StrPattern::new(b"ab".to_vec()), 4).into_searcher(haystack);

    assert_eq!(searcher.index(), 0);
    assert_eq!(searcher.next(), SearchStep::Match(0, 2));
    assert_eq!(searcher.index(), 2);
    assert_eq!(searcher.next(), SearchStep::Match(2, 4));
    assert_eq!(searcher.index(), 4);
    assert_eq!(searcher.next(), SearchStep::Done);
    assert_eq!(searcher.index(), 4);
    assert_eq!(searcher.next(), SearchStep::Done);
    assert_eq!(searcher.index(), 4);
    assert_eq!(searcher.next(), SearchStep::Done);
}

#[test]
fn test_remaining_none() {
    let haystack = "this haystack will be completely rejected".as_bytes();
    let mut searcher =
        LimitedPattern::new(ClassPattern::new(CharClass::AsciiAlphabetic), 0)
            .into_searcher(haystack);

    assert_eq!(searcher.index(), 0);
    assert_eq!(searcher.next(), SearchStep::Reject(0, haystack.len()));
    assert_eq!(searcher.index(), haystack.len());
    assert_eq!(searcher.next(), SearchStep::Done);
    assert_eq!(searcher.index(), haystack.len());
    assert_eq!(searcher.next(), SearchStep::Done);
    assert_eq!(searcher.index(), haystack.len());
    assert_eq!(searcher.next(), SearchStep::Done);
}

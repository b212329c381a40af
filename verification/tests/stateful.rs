use pattern_adapters::adapters::{CharCond, CharPattern, FusedPattern};
use pattern_adapters::logic::NotPattern;
use pattern_adapters::search::{Pattern, ReverseSearcher, SearchStep, Searcher};

#[test]
fn test_parentheses() {
    let haystack = "hey((hw)#".as_bytes();
    //              0123456789
    // condition that rejects everything between open and close parentheses
    let mut searcher =
        CharPattern::new(CharCond::OutsideParens, false).into_searcher(haystack);

    assert_eq!(searcher.next(), SearchStep::Match(0, 1));
    assert_eq!(searcher.next(), SearchStep::Match(1, 2));
    assert_eq!(searcher.next(), SearchStep::Match(2, 3));

    assert_eq!(searcher.next(), SearchStep::Reject(3, 4));
    assert_eq!(searcher.next(), SearchStep::Reject(4, 5));
    assert_eq!(searcher.next(), SearchStep::Reject(5, 6));
    assert_eq!(searcher.next(), SearchStep::Reject(6, 7));
    assert_eq!(searcher.next(), SearchStep::Reject(7, 8));

    assert_eq!(searcher.next(), SearchStep::Match(8, 9));
    assert_eq!(searcher.next(), SearchStep::Done);
}

#[test]
fn test_backward_scan() {
    let haystack = "a(b)c".as_bytes();
    // the backward traversal threads the condition's state from right to
    // left, independently of the forward cursor
    let mut searcher = CharPattern::new(CharCond::OutsideParens, false).into_searcher(haystack);

    assert_eq!(searcher.next_back(), SearchStep::Match(4, 5));
    assert_eq!(searcher.next_back(), SearchStep::Match(3, 4));
    assert_eq!(searcher.next_back(), SearchStep::Match(2, 3));
    assert_eq!(searcher.next_back(), SearchStep::Reject(1, 2));
    assert_eq!(searcher.next_back(), SearchStep::Reject(0, 1));
    assert_eq!(searcher.next_back(), SearchStep::Done);
    assert_eq!(searcher.next_back(), SearchStep::Done);
}

#[test]
fn test_backward_multibyte() {
    let haystack = "a\u{e4}".as_bytes();
    let mut searcher = CharPattern::new(CharCond::OutsideParens, false).into_searcher(haystack);

    // backward steps cover whole characters, widest last
    assert_eq!(searcher.next_back(), SearchStep::Match(1, 3));
    assert_eq!(searcher.next_back(), SearchStep::Match(0, 1));
    assert_eq!(searcher.next_back(), SearchStep::Done);
}

#[test]
fn test_backward_not_and_fused() {
    let haystack = "ab".as_bytes();

    let mut negated = NotPattern::new(CharPattern::new(CharCond::OutsideParens, false))
        .into_searcher(haystack);
    assert_eq!(negated.next_back(), SearchStep::Reject(1, 2));
    assert_eq!(negated.next_back(), SearchStep::Reject(0, 1));
    assert_eq!(negated.next_back(), SearchStep::Done);

    let mut fused = FusedPattern::new(CharPattern::new(CharCond::OutsideParens, false))
        .into_searcher(haystack);
    assert_eq!(fused.next_back(), SearchStep::Match(1, 2));
    assert_eq!(fused.next_back(), SearchStep::Match(0, 1));
    for _ in 0..5 {
        assert_eq!(fused.next_back(), SearchStep::Done);
    }

    let mut matches_back = CharPattern::new(CharCond::OutsideParens, true)
        .into_searcher("(a)".as_bytes());
    // from the back: ')' closes, 'a' outside, '(' opens again
    assert_eq!(matches_back.next_match_back(), Some((1, 2)));
    assert_eq!(matches_back.next_match_back(), None);
}

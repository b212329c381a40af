use pattern_adapters::base::chars::{CharClass, ClassPattern};
use pattern_adapters::adapters::{CharCond, CharPattern, PeekablePattern};
use pattern_adapters::search::{Pattern, ReverseSearcher, SearchStep, Searcher};

#[test]
fn peekable_test_simple() {
    let haystack = "heLLo".as_bytes();
    let mut searcher =
        PeekablePattern::new(ClassPattern::new(CharClass::AsciiLowercase)).into_searcher(haystack);

    assert_eq!(searcher.peek(), SearchStep::Match(0, 1));
    assert_eq!(searcher.peek(), SearchStep::Match(0, 1));
    assert_eq!(searcher.next(), SearchStep::Match(0, 1));

    assert_eq!(searcher.peek(), SearchStep::Match(1, 2));
    assert_eq!(searcher.peek(), SearchStep::Match(1, 2));
    assert_eq!(searcher.next(), SearchStep::Match(1, 2));

    assert_eq!(searcher.peek(), SearchStep::Reject(2, 3));
    assert_eq!(searcher.peek(), SearchStep::Reject(2, 3));
    assert_eq!(searcher.next(), SearchStep::Reject(2, 3));

    assert_eq!(searcher.next(), SearchStep::Reject(3, 4));

    assert_eq!(searcher.peek(), SearchStep::Match(4, 5));
    assert_eq!(searcher.next(), SearchStep::Match(4, 5));

    assert_eq!(searcher.peek(), SearchStep::Done);
    assert_eq!(searcher.peek(), SearchStep::Done);
    assert_eq!(searcher.next(), SearchStep::Done);
    assert_eq!(searcher.next(), SearchStep::Done);
}

#[test]
fn test_peek_back() {
    let haystack = "abc".as_bytes();
    let mut searcher =
        PeekablePattern::new(CharPattern::new(CharCond::OutsideParens, false))
            .into_searcher(haystack);

    // both lookaheads work on one searcher, each on its own end
    assert_eq!(searcher.peek(), SearchStep::Match(0, 1));
    assert_eq!(searcher.peek_back(), SearchStep::Match(2, 3));
    assert_eq!(searcher.peek_back(), SearchStep::Match(2, 3));
    assert_eq!(searcher.next_back(), SearchStep::Match(2, 3));

    assert_eq!(searcher.peek_back(), SearchStep::Match(1, 2));
    assert_eq!(searcher.next_back(), SearchStep::Match(1, 2));
    assert_eq!(searcher.next_back(), SearchStep::Match(0, 1));

    assert_eq!(searcher.peek_back(), SearchStep::Done);
    assert_eq!(searcher.next_back(), SearchStep::Done);

    // the forward lookahead buffered earlier is still there
    assert_eq!(searcher.next(), SearchStep::Match(0, 1));
}

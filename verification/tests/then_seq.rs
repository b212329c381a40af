use pattern_adapters::base::chars::{CharClass, ClassPattern};
use pattern_adapters::base::literal::StrPattern;
use pattern_adapters::adapters::ThenPattern;
use pattern_adapters::search::{Pattern, SearchStep, Searcher};

fn lit(needle: &str) -> StrPattern {
    StrPattern::new(needle.as_bytes().to_vec())
}

#[test]
fn then_test_simple() {
    let haystack = "abbaab".as_bytes();
    //              012345
    let mut searcher = ThenPattern::new(lit("a"), lit("b")).into_searcher(haystack);

    assert_eq!(searcher.index(), 0);
    assert_eq!(searcher.next(), SearchStep::Match(0, 2));
    assert_eq!(searcher.index(), 2);
    assert_eq!(searcher.next(), SearchStep::Reject(2, 4));
    assert_eq!(searcher.index(), 4);
    assert_eq!(searcher.next(), SearchStep::Match(4, 6));
    assert_eq!(searcher.index(), 6);
    assert_eq!(searcher.next(), SearchStep::Done);
    assert_eq!(searcher.index(), searcher.haystack().len());
}

#[test]
fn test_lines() {
    let haystack = "hello\n\r is \r\n this \r\n\rworking?".as_bytes();
    let mut searcher = ThenPattern::new(lit("\n"), lit("\r")).into_searcher(haystack);

    assert_eq!(searcher.index(), 0);
    assert_eq!(searcher.next(), SearchStep::Reject(0, 5));
    assert_eq!(searcher.index(), 5);
    assert_eq!(searcher.next(), SearchStep::Match(5, 7));
    assert_eq!(searcher.index(), 7);
    assert_eq!(searcher.next(), SearchStep::Reject(7, 13));
    assert_eq!(searcher.index(), 13);
    assert_eq!(searcher.next(), SearchStep::Reject(13, 20));
    assert_eq!(searcher.index(), 20);
    assert_eq!(searcher.next(), SearchStep::Match(20, 22));
    assert_eq!(searcher.index(), 22);
    assert_eq!(searcher.next(), SearchStep::Reject(22, 30));
    assert_eq!(searcher.index(), 30);
    assert_eq!(searcher.next(), SearchStep::Done);
    assert_eq!(searcher.index(), searcher.haystack().len());
}

#[test]
fn test_no_match() {
    let haystack = "hello world!".as_bytes();
    let mut searcher = ThenPattern::new(lit("l"), lit("\u{f6}")).into_searcher(haystack);

    assert_eq!(searcher.index(), 0);
    assert_eq!(
        searcher.next(),
        SearchStep::Reject(0, searcher.haystack().len())
    );
    assert_eq!(searcher.index(), searcher.haystack().len());
    assert_eq!(searcher.next(), SearchStep::Done);
    assert_eq!(searcher.index(), searcher.haystack().len());
}

#[test]
fn test_any() {
    let haystack = "h(ello worl)d!".as_bytes();
    let mut searcher = ThenPattern::new(
        ThenPattern::new(lit("("), ClassPattern::new(CharClass::Any)),
        lit(")"),
    )
    .into_searcher(haystack);

    // first test the underlying concatenation alone:
    {
        let mut searcher =
            ThenPattern::new(lit("("), ClassPattern::new(CharClass::Any)).into_searcher(haystack);

        assert_eq!(searcher.index(), 0);
        assert_eq!(searcher.next(), SearchStep::Reject(0, 1));

        assert_eq!(searcher.index(), 1);
        assert_eq!(searcher.next(), SearchStep::Match(1, 3));

        assert_eq!(searcher.index(), 3);
        assert_eq!(
            searcher.next(),
            SearchStep::Reject(3, searcher.haystack().len())
        );

        assert_eq!(searcher.index(), searcher.haystack().len());
        assert_eq!(searcher.next(), SearchStep::Done);
    }

    assert_eq!(searcher.index(), 0);
    assert_eq!(searcher.next(), SearchStep::Reject(0, 3));

    assert_eq!(searcher.index(), 3);
    assert_eq!(
        searcher.next(),
        SearchStep::Reject(3, searcher.haystack().len())
    );

    assert_eq!(searcher.index(), searcher.haystack().len());
    assert_eq!(searcher.next(), SearchStep::Done);
    assert_eq!(searcher.index(), searcher.haystack().len());
}

#[test]
fn then_test_fuzzer_failure_01() {
    let haystack = "\u{1}\u{0}\u{0}\u{0}/\u{0}/".as_bytes();

    let mut then_searcher = ThenPattern::new(lit("\u{0}"), lit("\u{0}")).into_searcher(haystack);
    let mut str_searcher = lit("\u{0}\u{0}").into_searcher(haystack);

    assert_eq!(then_searcher.next_match(), str_searcher.next_match());
}

#[test]
fn then_test_fuzzer_failure_02() {
    let haystack = "[///\n\u{13}*\u{0}\u{0}\u{0}".as_bytes();

    let mut then_searcher = ThenPattern::new(lit("\u{0}"), lit("\u{0}")).into_searcher(haystack);
    let mut str_searcher = lit("\u{0}\u{0}").into_searcher(haystack);

    assert_eq!(then_searcher.next_match(), str_searcher.next_match());
    assert_eq!(then_searcher.next_match(), str_searcher.next_match());
    assert_eq!(then_searcher.next_match(), str_searcher.next_match());
    assert_eq!(then_searcher.next_match(), str_searcher.next_match());
    assert_eq!(then_searcher.next_match(), str_searcher.next_match());
    assert_eq!(then_searcher.next_match(), str_searcher.next_match());
    assert_eq!(then_searcher.next_match(), str_searcher.next_match());
}

#[test]
fn test_fuzzer_failure_03() {
    let haystack =
        "\u{e}///\n\u{0}\u{0}\u{0}\u{0}//\u{13}\u{0}\u{0}\u{0}\u{0}\u{0}".as_bytes();

    let mut then_searcher = ThenPattern::new(lit("\u{0}"), lit("\u{0}")).into_searcher(haystack);
    let mut str_searcher = lit("\u{0}\u{0}").into_searcher(haystack);

    assert_eq!(then_searcher.next_match(), str_searcher.next_match());
    assert_eq!(then_searcher.next_match(), str_searcher.next_match());
    assert_eq!(then_searcher.next_match(), str_searcher.next_match());
    assert_eq!(then_searcher.next_match(), str_searcher.next_match());
    assert_eq!(then_searcher.next_match(), str_searcher.next_match());
    assert_eq!(then_searcher.next_match(), str_searcher.next_match());
    assert_eq!(then_searcher.next_match(), str_searcher.next_match());
}

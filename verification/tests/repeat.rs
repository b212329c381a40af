use pattern_adapters::base::chars::{CharClass, ClassPattern};
use pattern_adapters::base::literal::StrPattern;
use pattern_adapters::adapters::RepeatPattern;
use pattern_adapters::search::{Pattern, SearchStep, Searcher};

fn assert_continuity<'a, P: Pattern<'a>>(haystack: &'a [u8], pattern: P) {
    let mut searcher = pattern.into_searcher(haystack);

    let mut last_end = 0;
    loop {
        match searcher.next() {
            SearchStep::Match(start, end) | SearchStep::Reject(start, end) => {
                assert_eq!(last_end, start);
                last_end = end;
            }
            SearchStep::Done => break,
        }
    }

    assert_eq!(searcher.next(), SearchStep::Done);
}

#[test]
fn test_continuity() {
    assert_continuity(
        "1 2 3 4a\u{e4}alpqkdpawdjap 1320pjf.-as ,m".as_bytes(),
        RepeatPattern::new(ClassPattern::new(CharClass::AsciiDigit), 1, 1),
    );
}

#[test]
fn repeat_test_simple() {
    let haystack = "0123456789".as_bytes();
    let mut searcher =
        RepeatPattern::new(ClassPattern::new(CharClass::AsciiDigit), 1, 5).into_searcher(haystack);

    assert_eq!(searcher.next(), SearchStep::Match(0, 5));
    assert_eq!(searcher.next(), SearchStep::Match(5, 10));
    assert_eq!(searcher.next(), SearchStep::Done);
}

#[test]
fn test_exactly_one() {
    let haystack = "012".as_bytes();
    let mut searcher =
        RepeatPattern::new(ClassPattern::new(CharClass::AsciiDigit), 1, 1).into_searcher(haystack);

    assert_eq!(searcher.next(), SearchStep::Match(0, 1));
    assert_eq!(searcher.next(), SearchStep::Match(1, 2));
    assert_eq!(searcher.next(), SearchStep::Match(2, 3));
    assert_eq!(searcher.next(), SearchStep::Done);
}

#[test]
fn test_unicode() {
    let haystack = "0 \u{e4}\u{f6} 13 hello 2".as_bytes();
    let mut searcher =
        RepeatPattern::new(ClassPattern::new(CharClass::AsciiDigit), 1, 3).into_searcher(haystack);

    assert_eq!(searcher.next(), SearchStep::Match(0, 1));
    assert_eq!(searcher.next(), SearchStep::Reject(1, 2));
    assert_eq!(searcher.next(), SearchStep::Reject(2, 4));
    assert_eq!(searcher.next(), SearchStep::Reject(4, 6));
    assert_eq!(searcher.next(), SearchStep::Reject(6, 7));
    assert_eq!(searcher.next(), SearchStep::Match(7, 9));
    assert_eq!(searcher.next(), SearchStep::Reject(9, 10));
    assert_eq!(searcher.next(), SearchStep::Reject(10, 11));
    assert_eq!(searcher.next(), SearchStep::Reject(11, 12));
    assert_eq!(searcher.next(), SearchStep::Reject(12, 13));
    assert_eq!(searcher.next(), SearchStep::Reject(13, 14));
    assert_eq!(searcher.next(), SearchStep::Reject(14, 15));
    assert_eq!(searcher.next(), SearchStep::Reject(15, 16));
    assert_eq!(searcher.next(), SearchStep::Match(16, 17));
    assert_eq!(searcher.next(), SearchStep::Done);
}

#[test]
fn repeat_test_fuzzer_failure_01() {
    let haystack = "\u{1c},\u{0}\u{0}\u{0}\u{0}\u{0}=\u{0}\u{0}\u{0}\u{0}\u{1e}\u{0}\u{0},\u{0}\u{0}\u{0}\u{0}\u{0}\u{0}#\u{0}\u{0}\u{0}\u{0}\u{0}\u{0}\u{0}#,,\u{0},\u{0},\u{0},,\u{0}\u{0}\u{0}=\u{0}\u{0}\u{10}\u{0}\u{0}\u{0}\u{0}\u{0}\u{0}\u{0},,,\u{0}\u{0}\u{1a}\u{1c};\u{0}\u{1a}\u{1}\u{0}\u{0}\u{0}\u{0}\u{0}\u{0}\u{4}\u{0}\u{1c}\u{0}\u{1a},\u{0}\u{4}\u{0}\u{1c}\u{0}\u{1a}\u{1e}\u{0}/\u{0}#;\u{0}\u{0}J\u{0}#,,\u{0},\u{0}\u{1a},\u{0}\u{4}\u{0}\u{1c}\u{0}\u{1a}\u{1e}\u{0}/\u{0}\u{1c}\u{0}\u{1a}\u{1c};\u{0}\u{0}J\u{0}#,,\u{0},\u{0},\u{1c}\u{0}\u{1a},\u{0}\u{4}\u{0}\u{1c}\u{0}\u{1a}\u{1e}\u{0}/\u{0}\u{1c}\u{0}\u{1a}\u{1c};\u{0}\u{7},\u{0}$\u{0}\u{0}\u{0}\u{0}\u{0}=)\u{0}\u{0}\u{0}\u{0}\u{0}";

    let pattern = RepeatPattern::new(
        StrPattern::new("\u{0}".as_bytes().to_vec()),
        169618582,
        3170534138692239568,
    );
    assert_continuity(haystack.as_bytes(), pattern);
}

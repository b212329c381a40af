use pattern_adapters::base::chars::{CharClass, ClassPattern};
use pattern_adapters::base::literal::StrPattern;
use pattern_adapters::adapters::{LimitPattern, RepeatPattern, ThenPattern};
use pattern_adapters::logic::{AndPattern, LOrPattern, ROrPattern};
use pattern_adapters::search::{collect_steps, count_searcher, Pattern, SearchStep, Searcher};

fn lit(needle: &str) -> StrPattern {
    StrPattern::new(needle.as_bytes().to_vec())
}

fn steps<'a, P: Pattern<'a>>(haystack: &'a [u8], pattern: P) -> Vec<SearchStep> {
    let mut searcher = pattern.into_searcher(haystack);
    let mut collected = Vec::new();
    loop {
        let step = searcher.next();
        collected.push(step);
        if step == SearchStep::Done {
            return collected;
        }
    }
}

fn matches<'a, P: Pattern<'a>>(haystack: &'a [u8], pattern: P) -> Vec<(usize, usize)> {
    let mut searcher = pattern.into_searcher(haystack);
    let mut collected = Vec::new();
    while let Some(found) = searcher.next_match() {
        collected.push(found);
    }
    collected
}

fn assert_partition(trace: &[SearchStep], len: usize) {
    let mut cursor = 0;
    let mut finished = false;
    for &step in trace {
        match step {
            SearchStep::Match(start, end) | SearchStep::Reject(start, end) => {
                assert!(!finished);
                assert_eq!(start, cursor);
                assert!(start <= end && end <= len);
                cursor = end;
            }
            SearchStep::Done => {
                assert_eq!(cursor, len);
                finished = true;
            }
        }
    }
    assert!(finished);
}

#[test]
fn test_partition_invariant_scenarios() {
    let haystack = "abcaabbaab".as_bytes();
    assert_partition(&steps(haystack, lit("ab")), haystack.len());
    assert_partition(&steps(haystack, LOrPattern::new(lit("a"), lit("ab"))), haystack.len());
    assert_partition(&steps(haystack, ThenPattern::new(lit("a"), lit("b"))), haystack.len());
    assert_partition(
        &steps(haystack, AndPattern::new(lit("ab"), lit("a"))),
        haystack.len(),
    );
    let unicode = "0 \u{e4}\u{f6} 13 hello 2".as_bytes();
    assert_partition(
        &steps(unicode, RepeatPattern::new(ClassPattern::new(CharClass::AsciiDigit), 1, 3)),
        unicode.len(),
    );
    assert_partition(&steps("".as_bytes(), lit("a")), 0);
}

#[test]
fn test_or_family_equivalence() {
    for haystack in ["abcaabbaab", "ababab", "", "aaa", "xyz"] {
        let bytes = haystack.as_bytes();
        let left = steps(bytes, LOrPattern::new(lit("ab"), lit("ab")));
        let right = steps(bytes, ROrPattern::new(lit("ab"), lit("ab")));
        assert_eq!(left, right);
        assert_eq!(
            matches(bytes, LOrPattern::new(lit("ab"), lit("ab"))),
            matches(bytes, lit("ab")),
        );
    }
}

fn covered(spans: &[(usize, usize)], len: usize) -> Vec<bool> {
    let mut map = vec![false; len];
    for &(start, end) in spans {
        for position in start..end {
            map[position] = true;
        }
    }
    map
}

#[test]
fn test_and_self_intersection() {
    // the conjunction of a pattern with itself matches the same positions
    // as the pattern alone; adjacent matches are merged into one span by
    // the derived construction, so the comparison is by coverage
    for haystack in ["abcaabbaab", "ababab", "", "bbb"] {
        let bytes = haystack.as_bytes();
        assert_eq!(
            covered(&matches(bytes, AndPattern::new(lit("ab"), lit("ab"))), bytes.len()),
            covered(&matches(bytes, lit("ab")), bytes.len()),
        );
    }
}

#[test]
fn test_then_literal_equivalence() {
    for haystack in ["ab", "abbaab", "xxabxaby", "", "aabb", "ba"] {
        let bytes = haystack.as_bytes();
        assert_eq!(
            matches(bytes, ThenPattern::new(lit("a"), lit("b"))),
            matches(bytes, lit("ab")),
        );
    }
}

#[test]
fn test_limit_boundary() {
    // a limit of zero never lets a match through
    let haystack = "ababab".as_bytes();
    let zero = steps(haystack, LimitPattern::new(lit("ab"), 0));
    assert!(zero.iter().all(|step| !matches!(step, SearchStep::Match(_, _))));

    // a limit of n reports at most n matches, the (n + 1)-th as a reject
    let two = steps(haystack, LimitPattern::new(lit("ab"), 2));
    let match_count = two
        .iter()
        .filter(|step| matches!(step, SearchStep::Match(_, _)))
        .count();
    assert_eq!(match_count, 2);
    assert_eq!(
        two,
        vec![
            SearchStep::Match(0, 2),
            SearchStep::Match(2, 4),
            SearchStep::Reject(4, 6),
            SearchStep::Done,
        ],
    );
}

#[test]
fn test_collect_steps() {
    let haystack = "abcaabbaab".as_bytes();
    let collected = collect_steps(LOrPattern::new(lit("a"), lit("ab")).into_searcher(haystack));
    assert_eq!(
        collected,
        vec![
            SearchStep::Match(0, 1),
            SearchStep::Reject(1, 3),
            SearchStep::Match(3, 4),
            SearchStep::Match(4, 5),
            SearchStep::Reject(5, 7),
            SearchStep::Match(7, 8),
            SearchStep::Match(8, 9),
            SearchStep::Reject(9, 10),
        ],
    );
    let mut cursor = 0;
    for step in collected {
        match step {
            SearchStep::Match(start, end) | SearchStep::Reject(start, end) => {
                assert_eq!(start, cursor);
                cursor = end;
            }
            SearchStep::Done => unreachable!(),
        }
    }
    assert_eq!(cursor, haystack.len());
}

#[test]
fn test_count_searcher() {
    let haystack = "aabaaa".as_bytes();
    let searcher = lit("a").into_searcher(haystack);
    assert_eq!(count_searcher(searcher), (5, 1));

    let empty = lit("a").into_searcher("".as_bytes());
    assert_eq!(count_searcher(empty), (0, 0));
}

use pattern_adapters::search::SearchStep;

#[test]
fn it_works() {
    assert_eq!(2 + 2, 4);
}

#[test]
fn test_steps_compare() {
    assert_eq!(SearchStep::Match(0, 1), SearchStep::Match(0, 1));
    assert_ne!(SearchStep::Match(0, 1), SearchStep::Reject(0, 1));
    assert_ne!(SearchStep::Done, SearchStep::Reject(0, 1));
}

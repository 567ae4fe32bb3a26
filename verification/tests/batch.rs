use hackernews::{Batch, FetchError};

fn failure(reason: &str) -> FetchError {
    FetchError { reason: reason.to_string() }
}

#[test]
fn new_batch_has_one_position_per_identifier() {
    let batch: Batch<String> = Batch::new(&vec![7, 8, 9]);
    assert_eq!(batch.len(), 3);
    assert_eq!(batch.ids(), vec![7, 8, 9]);
    assert!(!batch.is_complete());
}

#[test]
fn batch_requests_follow_the_identifiers() {
    let batch: Batch<String> = Batch::new(&vec![7, -8, 9]);
    let urls: Vec<String> = batch.requests().into_iter().map(|request| request.url).collect();
    assert_eq!(
        urls,
        vec![
            "https://hacker-news.firebaseio.com/v0/item/7.json".to_string(),
            "https://hacker-news.firebaseio.com/v0/item/-8.json".to_string(),
            "https://hacker-news.firebaseio.com/v0/item/9.json".to_string(),
        ]
    );
}

#[test]
fn empty_batch_is_complete_and_yields_nothing() {
    let batch: Batch<String> = Batch::new(&Vec::new());
    assert_eq!(batch.len(), 0);
    assert!(batch.requests().is_empty());
    assert!(batch.is_complete());
    assert_eq!(batch.finish(), Some(Vec::new()));
}

#[test]
fn finish_waits_for_every_position() {
    let mut batch: Batch<String> = Batch::new(&vec![1, 2]);
    assert!(batch.record(0, Ok("one".to_string())));
    assert!(!batch.is_complete());
    assert_eq!(batch.finish(), None);
}

#[test]
fn finish_keeps_the_order_of_the_request() {
    let mut batch: Batch<String> = Batch::new(&vec![1, 2, 3]);
    assert!(batch.record(2, Ok("three".to_string())));
    assert!(batch.record(0, Ok("one".to_string())));
    assert!(batch.record(1, Ok("two".to_string())));
    assert!(batch.is_complete());
    assert_eq!(
        batch.finish(),
        Some(vec!["one".to_string(), "two".to_string(), "three".to_string()])
    );
}

#[test]
fn failed_fetch_is_left_out() {
    let mut batch: Batch<String> = Batch::new(&vec![1, 2, 3]);
    assert!(batch.record(0, Ok("one".to_string())));
    assert!(batch.record(1, Err(failure("null body"))));
    assert!(batch.record(2, Ok("three".to_string())));
    assert!(batch.is_complete());
    assert_eq!(batch.finish(), Some(vec!["one".to_string(), "three".to_string()]));
}

#[test]
fn batch_where_every_fetch_fails_is_empty_not_an_error() {
    let mut batch: Batch<String> = Batch::new(&vec![1, 2]);
    assert!(batch.record(1, Err(failure("timeout"))));
    assert!(batch.record(0, Err(failure("timeout"))));
    assert!(batch.is_complete());
    assert_eq!(batch.finish(), Some(Vec::new()));
}

#[test]
fn first_outcome_of_a_position_is_final() {
    let mut batch: Batch<String> = Batch::new(&vec![5]);
    assert!(batch.record(0, Err(failure("refused"))));
    assert!(!batch.record(0, Ok("late".to_string())));
    assert_eq!(batch.finish(), Some(Vec::new()));

    let mut batch: Batch<String> = Batch::new(&vec![5]);
    assert!(batch.record(0, Ok("early".to_string())));
    assert!(!batch.record(0, Ok("late".to_string())));
    assert!(!batch.record(0, Err(failure("late"))));
    assert_eq!(batch.finish(), Some(vec!["early".to_string()]));
}

#[test]
fn report_for_an_unknown_position_is_ignored() {
    let mut batch: Batch<String> = Batch::new(&vec![5, 6]);
    assert!(!batch.record(2, Ok("nowhere".to_string())));
    assert!(!batch.record(usize::MAX, Ok("nowhere".to_string())));
    assert_eq!(batch.len(), 2);
    assert!(!batch.is_complete());
    assert!(batch.record(0, Ok("five".to_string())));
    assert!(batch.record(1, Ok("six".to_string())));
    assert_eq!(batch.finish(), Some(vec!["five".to_string(), "six".to_string()]));
}

#[test]
fn duplicate_identifiers_are_fetched_once_per_occurrence() {
    let mut batch: Batch<String> = Batch::new(&vec![4, 4, 4]);
    assert_eq!(batch.requests().len(), 3);
    assert!(batch.record(0, Ok("a".to_string())));
    assert!(batch.record(1, Err(failure("flaky"))));
    assert!(batch.record(2, Ok("c".to_string())));
    assert_eq!(batch.ids(), vec![4, 4, 4]);
    assert_eq!(batch.finish(), Some(vec!["a".to_string(), "c".to_string()]));
}

#[test]
fn record_all_hands_in_outcomes_by_index() {
    let mut batch: Batch<String> = Batch::new(&vec![1, 2, 3]);
    batch.record_all(vec![
        Ok("one".to_string()),
        Err(failure("gone")),
        Ok("three".to_string()),
    ]);
    assert!(batch.is_complete());
    assert_eq!(batch.finish(), Some(vec!["one".to_string(), "three".to_string()]));
}

#[test]
fn record_all_with_too_few_outcomes_leaves_the_batch_open() {
    let mut batch: Batch<String> = Batch::new(&vec![1, 2, 3]);
    batch.record_all(vec![Ok("one".to_string()), Ok("two".to_string())]);
    assert!(!batch.is_complete());
    assert!(batch.record(2, Ok("three".to_string())));
    assert_eq!(
        batch.finish(),
        Some(vec!["one".to_string(), "two".to_string(), "three".to_string()])
    );
}

#[test]
fn record_all_ignores_outcomes_beyond_the_batch() {
    let mut batch: Batch<String> = Batch::new(&vec![1]);
    batch.record_all(vec![Ok("one".to_string()), Ok("stray".to_string())]);
    assert_eq!(batch.finish(), Some(vec!["one".to_string()]));
}

#[test]
fn record_all_does_not_overwrite_settled_positions() {
    let mut batch: Batch<String> = Batch::new(&vec![1, 2]);
    assert!(batch.record(1, Err(failure("first"))));
    batch.record_all(vec![Ok("one".to_string()), Ok("two".to_string())]);
    assert_eq!(batch.finish(), Some(vec!["one".to_string()]));
}

fn answer(id: i64) -> Result<String, FetchError> {
    if id % 3 == 0 {
        Err(failure("unavailable"))
    } else {
        Ok(format!("item {}", id))
    }
}

fn run(ids: &Vec<i64>, schedule: &[usize]) -> Option<Vec<String>> {
    let mut batch: Batch<String> = Batch::new(ids);
    for &pos in schedule {
        batch.record(pos, answer(ids[pos]));
    }
    batch.finish()
}

#[test]
fn result_does_not_depend_on_completion_order() {
    let ids = vec![1, 2, 3, 4, 5, 6];
    let expected = Some(vec![
        "item 1".to_string(),
        "item 2".to_string(),
        "item 4".to_string(),
        "item 5".to_string(),
    ]);
    assert_eq!(run(&ids, &[0, 1, 2, 3, 4, 5]), expected);
    assert_eq!(run(&ids, &[5, 4, 3, 2, 1, 0]), expected);
    assert_eq!(run(&ids, &[3, 0, 5, 1, 4, 2]), expected);
    assert_eq!(run(&ids, &[3, 0, 3, 5, 1, 0, 4, 2, 2]), expected);
}

#[test]
fn rerun_against_a_fully_available_backend_resolves_every_identifier() {
    let ids = vec![1, 2, 4, 5, 7];
    let expected = Some(vec![
        "item 1".to_string(),
        "item 2".to_string(),
        "item 4".to_string(),
        "item 5".to_string(),
        "item 7".to_string(),
    ]);
    let first = run(&ids, &[4, 2, 0, 1, 3]);
    let second = run(&ids, &[0, 1, 2, 3, 4]);
    assert_eq!(first, expected);
    assert_eq!(first, second);
}

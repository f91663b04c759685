use lyrix::searchers::selection::{
    first_occurrences_of, search_outcome, select_in_group, SearchEvent, SearchOutcome, SearchRun,
    SearchStep,
};

#[test]
fn group_takes_first_score_above_wow() {
    assert_eq!(select_in_group(&vec![6, 8, 9, 5], 5, 7), Some(1));
}

#[test]
fn group_takes_first_best_score_reaching_threshold() {
    assert_eq!(select_in_group(&vec![3, 6, 7, 7, 5], 5, 7), Some(2));
}

#[test]
fn group_without_good_score_gives_nothing() {
    assert_eq!(select_in_group(&vec![1, 4, 0], 5, 7), None);
    assert_eq!(select_in_group(&vec![], 5, 7), None);
}

#[test]
fn queries_keep_first_occurrences() {
    let strings = vec![
        "a b".to_string(),
        "a".to_string(),
        "a b".to_string(),
        "c".to_string(),
        "a".to_string(),
    ];
    let q = first_occurrences_of(&strings);
    assert_eq!(q, vec!["a b".to_string(), "a".to_string(), "c".to_string()]);
}

#[test]
fn search_run_tries_each_query_once_then_gives_up() {
    let strings = vec!["x".to_string(), "y".to_string(), "x".to_string()];
    let mut run = SearchRun::new(&strings, 5, 7);
    assert_eq!(run.start(), SearchStep::Query("x".to_string()));
    assert_eq!(run.step(&SearchEvent::Failed), SearchStep::Query("y".to_string()));
    assert_eq!(run.step(&SearchEvent::Scored(vec![1, 2])), SearchStep::GiveUp);
}

#[test]
fn search_run_selects_from_the_group_just_scored() {
    let strings = vec!["x".to_string(), "y".to_string()];
    let mut run = SearchRun::new(&strings, 5, 7);
    assert_eq!(run.start(), SearchStep::Query("x".to_string()));
    assert_eq!(run.step(&SearchEvent::Scored(vec![2, 6, 5])), SearchStep::Select(1));
}

#[test]
fn search_run_without_queries() {
    let mut run = SearchRun::new(&vec![], 5, 7);
    assert_eq!(run.start(), SearchStep::NoQueries);
}

#[test]
fn search_outcome_by_score() {
    assert_eq!(search_outcome(Some(5), 5), SearchOutcome::Accepted);
    assert_eq!(search_outcome(Some(4), 5), SearchOutcome::LowScore);
    assert_eq!(search_outcome(None, 5), SearchOutcome::Nothing);
}

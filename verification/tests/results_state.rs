use wicli::results_state::ResultsState;

fn three_results() -> Vec<String> {
    vec![
        String::from("result0"),
        String::from("result1"),
        String::from("result2"),
    ]
}

#[test]
fn it_allows_to_move_forwards_in_the_results_list() {
    let results = three_results();
    let mut results_state = ResultsState::from_results(&results);

    assert_eq!(results_state.list_state.selected(), None);

    results_state.next();
    assert_eq!(results_state.list_state.selected(), Some(0));

    results_state.next();
    assert_eq!(results_state.list_state.selected(), Some(1));

    results_state.next();
    assert_eq!(results_state.list_state.selected(), Some(2));

    results_state.next();
    assert_eq!(results_state.list_state.selected(), Some(0));
}

#[test]
fn it_allows_to_move_backwards_in_the_results_list() {
    let results = three_results();
    let mut results_state = ResultsState::from_results(&results);

    assert_eq!(results_state.list_state.selected(), None);

    results_state.previous();
    assert_eq!(results_state.list_state.selected(), Some(0));

    results_state.previous();
    assert_eq!(results_state.list_state.selected(), Some(2));

    results_state.previous();
    assert_eq!(results_state.list_state.selected(), Some(1));

    results_state.previous();
    assert_eq!(results_state.list_state.selected(), Some(0));
}

#[test]
fn an_empty_list_never_gains_a_selection() {
    let results: Vec<String> = Vec::new();
    let mut results_state = ResultsState::from_results(&results);

    results_state.next();
    assert_eq!(results_state.list_state.selected(), None);

    results_state.previous();
    assert_eq!(results_state.list_state.selected(), None);
}

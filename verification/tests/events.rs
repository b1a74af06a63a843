use wicli::events::{Events, Key, KeyInput};
use wicli::results_state::ResultsState;

#[test]
fn it_goes_forward_when_pressing_down_not_exiting_app() {
    let results = vec![String::from("a_string")];
    let mut results_state = ResultsState::from_results(&results);
    let key_event = KeyInput { code: Key::Down, ctrl: false };

    let exit_app = Events::handle_event(key_event, &mut results_state);

    assert!(!exit_app);
    assert_eq!(results_state.list_state.selected(), Some(0));
}

#[test]
fn it_goes_backward_when_pressing_down_not_exiting_app() {
    let results = vec![String::from("a_string")];
    let mut results_state = ResultsState::from_results(&results);
    let key_event = KeyInput { code: Key::Up, ctrl: false };

    let exit_app = Events::handle_event(key_event, &mut results_state);

    assert!(!exit_app);
    assert_eq!(results_state.list_state.selected(), Some(0));
}

#[test]
fn it_ignores_keys_with_no_action() {
    let results = vec![String::from("a_string")];
    let mut results_state = ResultsState::from_results(&results);
    let key_event = KeyInput { code: Key::Char('r'), ctrl: false };

    let exit_app = Events::handle_event(key_event, &mut results_state);

    assert!(!exit_app);
    assert_eq!(results_state.list_state.selected(), None);

    let key_event = KeyInput { code: Key::Char('A'), ctrl: false };

    let exit_app = Events::handle_event(key_event, &mut results_state);

    assert!(!exit_app);
    assert_eq!(results_state.list_state.selected(), None);
}

#[test]
fn it_exits_app_when_pressing_escape() {
    let results: Vec<String> = Vec::new();
    let mut results_state = ResultsState::from_results(&results);
    let key_event = KeyInput { code: Key::Esc, ctrl: false };

    let exit_app = Events::handle_event(key_event, &mut results_state);

    assert!(exit_app);
}

#[test]
fn it_exits_app_when_pressing_ctrl_c() {
    let results: Vec<String> = Vec::new();
    let mut results_state = ResultsState::from_results(&results);
    let key_event = KeyInput { code: Key::Char('c'), ctrl: true };

    let exit_app = Events::handle_event(key_event, &mut results_state);

    assert!(exit_app);
}

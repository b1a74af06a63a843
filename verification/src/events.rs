//! The result browser's key bindings: what one observed key press does to
//! the browser. Reading keys from the terminal is the surrounding binary's
//! work; it hands the observed press in as a plain value.

use vstd::prelude::*;

use crate::results_state::{step_backward, step_forward, ResultsState};

verus! {

/// The keys the browser distinguishes; every other key is `Other`.
#[derive(Clone, Copy, Debug)]
pub enum Key {
    Up,
    Down,
    Esc,
    Char(char),
    Other,
}

/// One observed key press: the key, and whether Control was held.
#[derive(Clone, Copy, Debug)]
pub struct KeyInput {
    pub code: Key,
    pub ctrl: bool,
}

/// The press asks the browser to exit: Escape, or Control-c.
pub open spec fn exits(key: KeyInput) -> bool {
    key.code is Esc || (key.code matches Key::Char(c) && c == 'c' && key.ctrl)
}

pub struct Events;

impl Events {
    /// The browser's bindings: Up and Down move the selection circularly
    /// (whatever the modifiers), Escape and Control-c exit, and every other
    /// press does nothing.
    pub fn handle_event(key_event: KeyInput, results_state: &mut ResultsState) -> (exit: bool)
        ensures
            exit == exits(key_event),
            final(results_state).items == old(results_state).items,
            key_event.code is Up ==> final(results_state).list_state.selected == step_backward(
                old(results_state).list_state.selected,
                old(results_state).items@.len() as int,
            ),
            key_event.code is Down ==> final(results_state).list_state.selected == step_forward(
                old(results_state).list_state.selected,
                old(results_state).items@.len() as int,
            ),
            !(key_event.code is Up || key_event.code is Down) ==> *final(results_state) == *old(
                results_state,
            ),
    {
        match key_event.code {
            Key::Up => {
                results_state.previous();
                false
            },
            Key::Down => {
                results_state.next();
                false
            },
            Key::Esc => true,
            Key::Char(c) => c == 'c' && key_event.ctrl,
            Key::Other => false,
        }
    }
}

} // verus!

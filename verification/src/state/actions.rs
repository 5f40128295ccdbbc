//! The actions that user interface events ask for.

use vstd::prelude::*;

verus! {

/// A step of the counter.
#[derive(Copy, Clone, Debug, PartialEq, Eq, Structural)]
pub enum Operation {
    Increment,
    Decrement,
    Reset,
}

/// A change to the todo at a position. Positions are not identities: a
/// removal shifts every later todo one place to the left.
#[derive(Copy, Clone, Debug, PartialEq, Eq, Structural)]
pub enum TodoOperation {
    Toggle(usize),
    Remove(usize),
}

/// What a user interface event asks of the state.
#[derive(Copy, Clone, Debug, PartialEq, Eq, Structural)]
pub enum Action {
    Counter(Operation),
    Todo(TodoOperation),
    ToggleTheme,
    ToggleVisibility,
}

} // verus!

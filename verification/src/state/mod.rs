//! The state of the application: the reducer, the state container and the
//! dispatcher.

pub mod actions;
pub mod app_state;

use vstd::prelude::*;
use crate::dom::{patches_view, Patch, PatchView};
use crate::render::{render, render_spec};
use crate::theme::{Theme, ThemeProvider};
use crate::utils::owned;
use actions::{Action, Operation, TodoOperation};
use app_state::{AppState, AppStateView, TodoView, Visibility};

verus! {

/// The 32-bit two's complement value of an integer.
pub open spec fn wrap_i32(value: int) -> int {
    (value + 0x8000_0000) % 0x1_0000_0000 - 0x8000_0000
}

/// The counter after one step. A step over the end of the 32-bit range
/// wraps around.
pub open spec fn step_counter(counter: int, operation: Operation) -> int {
    match operation {
        Operation::Increment => wrap_i32(counter + 1),
        Operation::Decrement => wrap_i32(counter - 1),
        Operation::Reset => 0,
    }
}

/// The todos after the completed flag of the todo at `index` is flipped; the
/// same todos where there is no todo at `index`.
pub open spec fn toggle_todo(todos: Seq<TodoView>, index: int) -> Seq<TodoView> {
    if 0 <= index < todos.len() {
        todos.update(index, TodoView { completed: !todos[index].completed, ..todos[index] })
    } else {
        todos
    }
}

/// The todos after the todo at `index` is taken out; the same todos where
/// there is no todo at `index`.
pub open spec fn remove_todo(todos: Seq<TodoView>, index: int) -> Seq<TodoView> {
    if 0 <= index < todos.len() {
        todos.remove(index)
    } else {
        todos
    }
}

/// The state that follows `state` under `action`.
pub open spec fn reduce_spec(state: AppStateView, action: Action) -> AppStateView {
    match action {
        Action::Counter(operation) => AppStateView {
            counter: step_counter(state.counter, operation),
            ..state
        },
        Action::Todo(TodoOperation::Toggle(index)) => AppStateView {
            todos: toggle_todo(state.todos, index as int),
            ..state
        },
        Action::Todo(TodoOperation::Remove(index)) => AppStateView {
            todos: remove_todo(state.todos, index as int),
            ..state
        },
        Action::ToggleTheme => AppStateView {
            theme: state.theme.toggled(),
            theme_provider: state.theme_provider.toggled(),
            ..state
        },
        Action::ToggleVisibility => AppStateView {
            visibility: state.visibility.toggled(),
            ..state
        },
    }
}

/// The write to the page that belongs to handling `action` in `state`:
/// toggling the theme shows the new theme of the provider on the root
/// element; no other action writes to the page. The reducer does not carry
/// the write out. It hands it out, and the dispatcher lists it before the
/// writes of the render pass, so that it reaches the page first.
pub open spec fn effect_spec(state: AppStateView, action: Action) -> Option<PatchView> {
    match action {
        Action::ToggleTheme => Some(
            PatchView::SetClass {
                id: "app"@,
                class_name: ThemeProvider::root_class(state.theme_provider.toggled()),
            },
        ),
        _ => None,
    }
}

/// The value of an optional patch.
pub open spec fn effect_view(effect: Option<Patch>) -> Option<PatchView> {
    match effect {
        Some(patch) => Some(patch@),
        None => None,
    }
}

/// Derives the next state from a state and an action, together with the
/// write to the page that handling the action asks for. The counter wraps
/// around at the ends of the 32-bit range; toggling or removing a todo at a
/// position that does not exist changes nothing.
pub fn reduce(state: AppState, action: Action) -> (next: (AppState, Option<Patch>))
    ensures
        next.0@ == reduce_spec(state@, action),
        effect_view(next.1) == effect_spec(state@, action),
{
    let mut state = state;
    let ghost before = state;
    let mut effect: Option<Patch> = None;
    match action {
        Action::Counter(operation) => {
            state.counter =
            match operation {
                Operation::Increment => state.counter.wrapping_add(1),
                Operation::Decrement => state.counter.wrapping_sub(1),
                Operation::Reset => 0,
            };
        },
        Action::Todo(operation) => {
            match operation {
                TodoOperation::Toggle(index) => {
                    if index < state.todos.len() {
                        let completed = state.todos[index].completed;
                        state.todos[index].completed = !completed;
                        assert(state@.todos =~= toggle_todo(before@.todos, index as int));
                    }
                },
                TodoOperation::Remove(index) => {
                    if index < state.todos.len() {
                        state.todos.remove(index);
                        assert(state@.todos =~= remove_todo(before@.todos, index as int));
                    }
                },
            }
        },
        Action::ToggleTheme => {
            state.theme =
            match state.theme {
                Theme::Light => Theme::Dark,
                Theme::Dark => Theme::Light,
            };
            state.theme_provider.toggle_theme();
            effect =
            Some(Patch::SetClass { id: owned("app"), class_name: state.theme_provider.class_name() });
        },
        Action::ToggleVisibility => {
            state.visibility =
            match state.visibility {
                Visibility::Shown => Visibility::Hidden,
                Visibility::Hidden => Visibility::Shown,
            };
        },
    }
    (state, effect)
}

/// The state container: it holds the one state of the application, hands
/// out snapshots of it and replaces it as a whole.
#[derive(Debug)]
pub struct Store {
    state: AppState,
}

impl View for Store {
    type V = AppStateView;

    closed spec fn view(&self) -> AppStateView {
        self.state@
    }
}

impl Store {
    /// The state that the container holds.
    pub closed spec fn state(&self) -> AppState {
        self.state
    }

    /// The value of the container is the value of its state.
    pub proof fn lemma_view(&self)
        ensures
            self@ == self.state()@,
    {
    }

    /// A container with the state at the start.
    pub fn new() -> (store: Store)
        ensures
            store@ == AppStateView::initial(),
    {
        Store { state: AppState::default() }
    }

    /// The state that is held.
    pub fn read(&self) -> (state: &AppState)
        ensures
            *state == self.state(),
            state@ == self@,
    {
        &self.state
    }

    /// Replaces the state that is held by `state`. Only the functions of
    /// this library that handle a transaction commit: the state has one
    /// writer.
    pub(crate) fn commit(&mut self, state: AppState)
        ensures
            final(self).state() == state,
            final(self)@ == state@,
    {
        self.state = state;
    }
}

/// The writes to the page that a dispatch of `action` in `state` hands
/// out, in their order: the write that belongs to handling the action,
/// where there is one, and then the writes of a render pass of the next
/// state.
pub open spec fn dispatch_spec(state: AppStateView, action: Action) -> Seq<PatchView> {
    match effect_spec(state, action) {
        Some(patch) => seq![patch] + render_spec(reduce_spec(state, action)),
        None => render_spec(reduce_spec(state, action)),
    }
}

/// Replaces the state by what `updater` makes of a snapshot of it, and
/// renders the new state.
pub fn update_state<F: FnOnce(AppState) -> AppState>(store: &mut Store, updater: F) -> (patches:
    Vec<Patch>)
    requires
        forall|snapshot: AppState| snapshot@ == old(store)@ ==> updater.requires((snapshot, )),
    ensures
        exists|snapshot: AppState|
            snapshot@ == old(store)@ && updater.ensures((snapshot, ), final(store).state()),
        patches_view(patches@) == render_spec(final(store)@),
{
    let snapshot = store.read().clone();
    let next = updater(snapshot);
    store.commit(next);
    render(store.read())
}

/// Handles an action as one transaction: reads the state, derives the next
/// state, commits it, and renders it. The state is committed before
/// anything is written to the page. The writes are handed out for the page
/// in the order in which they are due.
pub fn dispatch(store: &mut Store, action: Action) -> (patches: Vec<Patch>)
    ensures
        final(store)@ == reduce_spec(old(store)@, action),
        patches_view(patches@) == dispatch_spec(old(store)@, action),
{
    let snapshot = store.read().clone();
    let (next, effect) = reduce(snapshot, action);
    store.commit(next);
    let mut patches: Vec<Patch> = Vec::new();
    match effect {
        Some(patch) => {
            patches.push(patch);
        },
        None => {},
    }
    let ghost first = patches_view(patches@);
    let mut rendered = render(store.read());
    let ghost rest = patches_view(rendered@);
    patches.append(&mut rendered);
    assert(patches_view(patches@) =~= first + rest);
    assert(first =~= match effect_spec(old(store)@, action) {
        Some(patch) => seq![patch],
        None => Seq::empty(),
    });
    patches
}

/// The state after a sequence of actions, each handled in the state that
/// the one before it left.
pub open spec fn replay(state: AppStateView, actions: Seq<Action>) -> AppStateView
    decreases actions.len(),
{
    if actions.len() == 0 {
        state
    } else {
        reduce_spec(replay(state, actions.drop_last()), actions.last())
    }
}

/// The result of counting from `start` through a sequence of operations, in
/// unbounded arithmetic.
pub open spec fn fold_counter(start: int, operations: Seq<Operation>) -> int
    decreases operations.len(),
{
    if operations.len() == 0 {
        start
    } else {
        match operations.last() {
            Operation::Increment => fold_counter(start, operations.drop_last()) + 1,
            Operation::Decrement => fold_counter(start, operations.drop_last()) - 1,
            Operation::Reset => 0,
        }
    }
}

/// The counter actions of a sequence of operations.
pub open spec fn counter_actions_of(operations: Seq<Operation>) -> Seq<Action> {
    Seq::new(operations.len(), |i: int| Action::Counter(operations[i]))
}

/// Replaying counter operations leaves the counter at the 32-bit value of
/// their arithmetic result and every other part of the state as it was. In
/// particular the counter is the arithmetic result itself wherever that
/// fits in 32 bits, and it is 0 after a reset whatever came before.
pub proof fn lemma_counter_replay(state: AppStateView, operations: Seq<Operation>)
    requires
        i32::MIN <= state.counter <= i32::MAX,
    ensures
        replay(state, counter_actions_of(operations)) == (AppStateView {
            counter: wrap_i32(fold_counter(state.counter, operations)),
            ..state
        }),
        i32::MIN <= fold_counter(state.counter, operations) <= i32::MAX ==> replay(
            state,
            counter_actions_of(operations),
        ).counter == fold_counter(state.counter, operations),
        operations.len() > 0 && operations.last() == Operation::Reset ==> replay(
            state,
            counter_actions_of(operations),
        ).counter == 0,
    decreases operations.len(),
{
    if operations.len() > 0 {
        let actions = counter_actions_of(operations);
        assert(actions.drop_last() =~= counter_actions_of(operations.drop_last()));
        assert(actions.last() == Action::Counter(operations.last()));
        lemma_counter_replay(state, operations.drop_last());
    }
}

/// Toggling a todo at a position that does not exist leaves the state as it
/// is. Toggling the todo at a position that exists flips the completed flag
/// of that todo and changes nothing else: the text of that todo, the other
/// todos, their number and order, and the rest of the state stay.
pub proof fn lemma_toggle_todo(state: AppStateView, index: usize)
    ensures
        index >= state.todos.len() ==> reduce_spec(
            state,
            Action::Todo(TodoOperation::Toggle(index)),
        ) == state,
        index < state.todos.len() ==> ({
            let next = reduce_spec(state, Action::Todo(TodoOperation::Toggle(index)));
            &&& next == AppStateView { todos: next.todos, ..state }
            &&& next.todos.len() == state.todos.len()
            &&& next.todos[index as int].completed == !state.todos[index as int].completed
            &&& next.todos[index as int].text == state.todos[index as int].text
            &&& forall|j: int|
                0 <= j < state.todos.len() && j != index ==> next.todos[j] == state.todos[j]
        }),
{
}

/// Removing a todo at a position that does not exist leaves the state as it
/// is. Removing the todo at a position that exists leaves one todo fewer:
/// those before the position stay where they are, those after it move one
/// place to the left, and the rest of the state stays.
pub proof fn lemma_remove_todo(state: AppStateView, index: usize)
    ensures
        index >= state.todos.len() ==> reduce_spec(
            state,
            Action::Todo(TodoOperation::Remove(index)),
        ) == state,
        index < state.todos.len() ==> ({
            let next = reduce_spec(state, Action::Todo(TodoOperation::Remove(index)));
            &&& next == AppStateView { todos: next.todos, ..state }
            &&& next.todos.len() == state.todos.len() - 1
            &&& forall|j: int| 0 <= j < index ==> next.todos[j] == state.todos[j]
            &&& forall|j: int|
                index <= j < state.todos.len() - 1 ==> next.todos[j] == state.todos[j + 1]
        }),
{
}

/// Toggling the theme twice gives the state back: the theme and the theme
/// of the provider are what they were. The second toggle writes to the page
/// what shows the first state: the class of the theme that the provider had
/// at first on the root element, and then a render pass of the first state,
/// which leaves the root element with the class of the first theme.
pub proof fn lemma_toggle_theme_twice(state: AppStateView)
    ensures
        reduce_spec(reduce_spec(state, Action::ToggleTheme), Action::ToggleTheme) == state,
        effect_spec(reduce_spec(state, Action::ToggleTheme), Action::ToggleTheme) == Some(
            PatchView::SetClass {
                id: "app"@,
                class_name: ThemeProvider::root_class(state.theme_provider),
            },
        ),
        dispatch_spec(reduce_spec(state, Action::ToggleTheme), Action::ToggleTheme) == seq![
            PatchView::SetClass {
                id: "app"@,
                class_name: ThemeProvider::root_class(state.theme_provider),
            },
        ] + render_spec(state),
{
}

/// The provider mirrors the theme: where the two agree in a state, they
/// agree in every state that a replay from it reaches. They agree in the
/// state at the start.
pub proof fn lemma_provider_mirrors_theme(state: AppStateView, actions: Seq<Action>)
    requires
        state.theme_provider == state.theme,
    ensures
        replay(state, actions).theme_provider == replay(state, actions).theme,
        AppStateView::initial().theme_provider == AppStateView::initial().theme,
    decreases actions.len(),
{
    if actions.len() > 0 {
        lemma_provider_mirrors_theme(state, actions.drop_last());
    }
}

/// Toggling the visibility twice gives the state back.
pub proof fn lemma_toggle_visibility_twice(state: AppStateView)
    ensures
        reduce_spec(reduce_spec(state, Action::ToggleVisibility), Action::ToggleVisibility)
            == state,
{
}

} // verus!

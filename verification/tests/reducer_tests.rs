use rsx_ui::dom::Patch;
use rsx_ui::router::Route;
use rsx_ui::state::actions::{Action, Operation, TodoOperation};
use rsx_ui::state::app_state::{AppState, Todo, Visibility};
use rsx_ui::state::{dispatch, reduce, Store};
use rsx_ui::theme::{Theme, ThemeProvider};

fn todo(text: &str, completed: bool) -> Todo {
    Todo { text: text.to_string(), completed }
}

fn state_with_todos(todos: Vec<Todo>) -> AppState {
    let mut state = AppState::default();
    state.todos = todos;
    state
}

#[test]
fn test_default_state() {
    let state = AppState::default();
    assert_eq!(state.counter, 0);
    assert_eq!(state.theme, Theme::Light);
    assert_eq!(state.visibility, Visibility::Shown);
    assert!(state.todos.is_empty());
    assert_eq!(state.theme_provider, ThemeProvider::new());
    assert_eq!(state.current_route, Route::Home);
    assert_eq!(state.counter(), 0);
    assert_eq!(state.theme(), Theme::Light);
    assert_eq!(state.visibility(), Visibility::Shown);
    assert!(state.todos().is_empty());
}

#[test]
fn test_counter_steps() {
    let (state, effect) = reduce(AppState::default(), Action::Counter(Operation::Increment));
    assert_eq!(state.counter, 1);
    assert_eq!(effect, None);
    let (state, _) = reduce(state, Action::Counter(Operation::Increment));
    assert_eq!(state.counter, 2);
    let (state, _) = reduce(state, Action::Counter(Operation::Decrement));
    assert_eq!(state.counter, 1);
    let (state, _) = reduce(state, Action::Counter(Operation::Decrement));
    let (state, _) = reduce(state, Action::Counter(Operation::Decrement));
    assert_eq!(state.counter, -1);
}

#[test]
fn test_counter_reset_regardless_of_history() {
    let mut state = AppState::default();
    state.counter = 12345;
    let (state, _) = reduce(state, Action::Counter(Operation::Reset));
    assert_eq!(state.counter, 0);
    let mut state = state;
    state.counter = -7;
    let (state, _) = reduce(state, Action::Counter(Operation::Reset));
    assert_eq!(state.counter, 0);
    let (state, _) = reduce(state, Action::Counter(Operation::Reset));
    assert_eq!(state.counter, 0);
}

#[test]
fn test_counter_replay_equals_arithmetic_fold() {
    let operations = [
        Operation::Increment,
        Operation::Increment,
        Operation::Decrement,
        Operation::Reset,
        Operation::Decrement,
        Operation::Decrement,
        Operation::Increment,
        Operation::Increment,
        Operation::Increment,
    ];
    let mut state = AppState::default();
    let mut expected: i64 = 0;
    for operation in operations {
        expected = match operation {
            Operation::Increment => expected + 1,
            Operation::Decrement => expected - 1,
            Operation::Reset => 0,
        };
        state = reduce(state, Action::Counter(operation)).0;
        assert_eq!(state.counter as i64, expected);
    }
    assert_eq!(state.counter, 1);
}

#[test]
fn test_counter_wraps_at_the_ends() {
    let mut state = AppState::default();
    state.counter = i32::MAX;
    let (state, _) = reduce(state, Action::Counter(Operation::Increment));
    assert_eq!(state.counter, i32::MIN);
    let (state, _) = reduce(state, Action::Counter(Operation::Decrement));
    assert_eq!(state.counter, i32::MAX);
}

#[test]
fn test_toggle_out_of_bounds_is_no_op() {
    let before = state_with_todos(vec![todo("a", false), todo("b", true)]);
    let (after, effect) = reduce(before.clone(), Action::Todo(TodoOperation::Toggle(2)));
    assert_eq!(after, before);
    assert_eq!(effect, None);
    let (after, _) = reduce(before.clone(), Action::Todo(TodoOperation::Toggle(usize::MAX)));
    assert_eq!(after, before);
    let empty = AppState::default();
    let (after, _) = reduce(empty.clone(), Action::Todo(TodoOperation::Toggle(0)));
    assert_eq!(after, empty);
}

#[test]
fn test_toggle_flips_exactly_one_flag() {
    let before = state_with_todos(vec![todo("a", false), todo("b", true), todo("c", false)]);
    let (after, _) = reduce(before.clone(), Action::Todo(TodoOperation::Toggle(1)));
    assert_eq!(after.todos, vec![todo("a", false), todo("b", false), todo("c", false)]);
    assert_eq!(after.counter, before.counter);
    assert_eq!(after.theme, before.theme);
    assert_eq!(after.visibility, before.visibility);
    let (again, _) = reduce(after, Action::Todo(TodoOperation::Toggle(1)));
    assert_eq!(again, before);
}

#[test]
fn test_remove_out_of_bounds_is_no_op() {
    let before = state_with_todos(vec![todo("a", false), todo("b", true)]);
    let (after, effect) = reduce(before.clone(), Action::Todo(TodoOperation::Remove(2)));
    assert_eq!(after, before);
    assert_eq!(effect, None);
    let (after, _) = reduce(before.clone(), Action::Todo(TodoOperation::Remove(99)));
    assert_eq!(after, before);
}

#[test]
fn test_remove_shifts_later_todos_left() {
    let before = state_with_todos(vec![todo("a", false), todo("b", true), todo("c", false)]);
    let (after, _) = reduce(before.clone(), Action::Todo(TodoOperation::Remove(0)));
    assert_eq!(after.todos, vec![todo("b", true), todo("c", false)]);
    let (after, _) = reduce(before.clone(), Action::Todo(TodoOperation::Remove(1)));
    assert_eq!(after.todos, vec![todo("a", false), todo("c", false)]);
    let (after, _) = reduce(before, Action::Todo(TodoOperation::Remove(2)));
    assert_eq!(after.todos, vec![todo("a", false), todo("b", true)]);
}

#[test]
fn test_toggle_theme_flips_theme_and_shows_it() {
    let (state, effect) = reduce(AppState::default(), Action::ToggleTheme);
    assert_eq!(state.theme, Theme::Dark);
    assert_eq!(state.theme_provider.class_name(), "app-container theme-dark");
    assert_eq!(
        effect,
        Some(Patch::SetClass {
            id: "app".to_string(),
            class_name: "app-container theme-dark".to_string(),
        })
    );
}

#[test]
fn test_toggle_theme_twice_is_identity() {
    let before = AppState::default();
    let (once, _) = reduce(before.clone(), Action::ToggleTheme);
    let (twice, effect) = reduce(once, Action::ToggleTheme);
    assert_eq!(twice, before);
    assert_eq!(
        effect,
        Some(Patch::SetClass {
            id: "app".to_string(),
            class_name: "app-container theme-light".to_string(),
        })
    );
}

#[test]
fn test_toggle_visibility() {
    let (state, effect) = reduce(AppState::default(), Action::ToggleVisibility);
    assert_eq!(state.visibility, Visibility::Hidden);
    assert_eq!(effect, None);
    let (state, _) = reduce(state, Action::ToggleVisibility);
    assert_eq!(state.visibility, Visibility::Shown);
}

#[test]
fn test_theme_class_names() {
    assert_eq!(Theme::Light.to_str(), "theme-light");
    assert_eq!(Theme::Dark.to_str(), "theme-dark");
    assert_eq!(Theme::default(), Theme::Light);
    let mut provider = ThemeProvider::default();
    assert_eq!(provider.class_name(), "app-container theme-light");
    provider.toggle_theme();
    assert_eq!(provider.class_name(), "app-container theme-dark");
    provider.toggle_theme();
    assert_eq!(provider, ThemeProvider::new());
}

#[test]
fn test_store_starts_with_defaults_and_commits_on_dispatch() {
    let mut store = Store::new();
    assert_eq!(*store.read(), AppState::default());
    dispatch(&mut store, Action::Counter(Operation::Increment));
    dispatch(&mut store, Action::Counter(Operation::Increment));
    dispatch(&mut store, Action::ToggleVisibility);
    assert_eq!(store.read().counter, 2);
    assert_eq!(store.read().visibility, Visibility::Hidden);
    assert_eq!(store.read().theme, Theme::Light);
}

#[test]
fn test_dispatch_hands_out_effect_then_render() {
    let mut store = Store::new();
    let patches = dispatch(&mut store, Action::ToggleTheme);
    assert_eq!(patches.len(), 5);
    assert_eq!(
        patches[0],
        Patch::SetClass {
            id: "app".to_string(),
            class_name: "app-container theme-dark".to_string(),
        }
    );
    assert_eq!(
        patches[2],
        Patch::SetClass { id: "app".to_string(), class_name: "theme-dark".to_string() }
    );
    let patches = dispatch(&mut store, Action::Counter(Operation::Decrement));
    assert_eq!(patches.len(), 4);
    assert_eq!(patches[0], Patch::SetText { id: "count".to_string(), text: "-1".to_string() });
}

//! The state of the application and its parts.

use vstd::prelude::*;
use crate::router::Route;
use crate::theme::{Theme, ThemeProvider};

verus! {

/// One entry of the todo list.
#[derive(Debug, PartialEq, Eq)]
pub struct Todo {
    pub text: String,
    pub completed: bool,
}

/// The mathematical value of a [`Todo`].
pub struct TodoView {
    pub text: Seq<char>,
    pub completed: bool,
}

impl View for Todo {
    type V = TodoView;

    open spec fn view(&self) -> TodoView {
        TodoView { text: self.text@, completed: self.completed }
    }
}

impl Clone for Todo {
    fn clone(&self) -> (copy: Todo)
        ensures
            copy@ == self@,
    {
        Todo { text: self.text.clone(), completed: self.completed }
    }
}

impl Default for Todo {
    fn default() -> (todo: Todo)
        ensures
            todo@ == (TodoView { text: Seq::empty(), completed: false }),
    {
        Todo { text: String::new(), completed: false }
    }
}

/// Whether the content of the page is shown.
#[derive(Copy, Clone, Debug, PartialEq, Eq, Structural)]
pub enum Visibility {
    Shown,
    Hidden,
}

impl Visibility {
    /// The other visibility.
    pub open spec fn toggled(self) -> Visibility {
        match self {
            Visibility::Shown => Visibility::Hidden,
            Visibility::Hidden => Visibility::Shown,
        }
    }
}

impl Default for Visibility {
    fn default() -> (visibility: Visibility)
        ensures
            visibility == Visibility::Shown,
    {
        Visibility::Shown
    }
}

/// The mathematical values of a list of todos.
pub open spec fn todos_view(todos: Seq<Todo>) -> Seq<TodoView> {
    Seq::new(todos.len(), |i: int| todos[i]@)
}

/// The state of the application: one value, replaced as a whole by every
/// dispatch.
#[derive(Debug, PartialEq, Eq)]
pub struct AppState {
    pub counter: i32,
    pub theme: Theme,
    pub visibility: Visibility,
    pub todos: Vec<Todo>,
    pub theme_provider: ThemeProvider,
    pub current_route: Route,
}

/// The mathematical value of an [`AppState`].
pub struct AppStateView {
    pub counter: int,
    pub theme: Theme,
    pub visibility: Visibility,
    pub todos: Seq<TodoView>,
    pub theme_provider: Theme,
    pub current_route: Route,
}

impl AppStateView {
    /// The state at the start: counter 0, light theme, content shown, no
    /// todos, the home page.
    pub open spec fn initial() -> AppStateView {
        AppStateView {
            counter: 0,
            theme: Theme::Light,
            visibility: Visibility::Shown,
            todos: Seq::empty(),
            theme_provider: Theme::Light,
            current_route: Route::Home,
        }
    }
}

impl View for AppState {
    type V = AppStateView;

    open spec fn view(&self) -> AppStateView {
        AppStateView {
            counter: self.counter as int,
            theme: self.theme,
            visibility: self.visibility,
            todos: todos_view(self.todos@),
            theme_provider: self.theme_provider@,
            current_route: self.current_route,
        }
    }
}

impl Default for AppState {
    fn default() -> (state: AppState)
        ensures
            state@ == AppStateView::initial(),
    {
        let state = AppState {
            counter: 0,
            theme: Theme::Light,
            visibility: Visibility::Shown,
            todos: Vec::new(),
            theme_provider: ThemeProvider::new(),
            current_route: Route::Home,
        };
        assert(state@.todos =~= Seq::empty());
        state
    }
}

impl Clone for AppState {
    fn clone(&self) -> (copy: AppState)
        ensures
            copy@ == self@,
    {
        let mut todos: Vec<Todo> = Vec::new();
        let mut i: usize = 0;
        while i < self.todos.len()
            invariant
                i <= self.todos.len(),
                todos@.len() == i,
                forall|j: int| 0 <= j < i ==> (#[trigger] todos@[j])@ == self.todos@[j]@,
            decreases self.todos.len() - i,
        {
            todos.push(self.todos[i].clone());
            i += 1;
        }
        assert(todos_view(todos@) =~= todos_view(self.todos@));
        AppState {
            counter: self.counter,
            theme: self.theme,
            visibility: self.visibility,
            todos,
            theme_provider: self.theme_provider,
            current_route: self.current_route,
        }
    }
}

impl AppState {
    /// The counter.
    pub fn counter(&self) -> (counter: i32)
        ensures
            counter == self@.counter,
    {
        self.counter
    }

    /// The theme.
    pub fn theme(&self) -> (theme: Theme)
        ensures
            theme == self@.theme,
    {
        self.theme
    }

    /// Whether the content is shown.
    pub fn visibility(&self) -> (visibility: Visibility)
        ensures
            visibility == self@.visibility,
    {
        self.visibility
    }

    /// The todos, in the order in which they were added.
    pub fn todos(&self) -> (todos: &Vec<Todo>)
        ensures
            todos_view(todos@) == self@.todos,
    {
        &self.todos
    }
}

} // verus!

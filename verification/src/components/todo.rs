//! The todo list: its input box, its rows, and adding a todo.

use vstd::prelude::*;
use crate::action_handler;
use crate::components::lemma_vocabulary;
use crate::dom::{elements_view, Element, ElementView, Handler};
use crate::rsx::{
    attr, build, child, child_expr, directives_view, dynamic_text, iter_expr, lemma_build,
    map_indexed, on, text,
};
use crate::state::actions::{Action, TodoOperation};
use crate::dom::{patches_view, Patch};
use crate::render::render_spec;
use crate::state::app_state::{todos_view, AppState, AppStateView, Todo, TodoView};
use crate::state::{update_state, Store};

verus! {

/// The field in which a new todo is typed. The Enter key adds the todo.
pub open spec fn todo_field_view() -> ElementView {
    ElementView {
        tag: "input"@,
        attributes: seq![
            ("id"@, "todo-input"@),
            ("class"@, "input-field"@),
            ("type"@, "text"@),
            ("placeholder"@, "Add new todo"@),
        ],
        styles: Seq::empty(),
        text: None,
        listeners: seq![("keydown"@, Handler::AddTodoOnEnter)],
        children: Seq::empty(),
    }
}

/// The button that adds the todo that was typed.
pub open spec fn add_button_view() -> ElementView {
    ElementView {
        tag: "button"@,
        attributes: seq![("class"@, "btn"@)],
        styles: Seq::empty(),
        text: Some("Add Todo"@),
        listeners: seq![("click"@, Handler::AddTodo)],
        children: Seq::empty(),
    }
}

/// The input box of the todo list: the field, then the button.
pub open spec fn todo_input_view() -> ElementView {
    ElementView {
        tag: "div"@,
        attributes: seq![("class"@, "input-container"@)],
        styles: Seq::empty(),
        text: None,
        listeners: Seq::empty(),
        children: seq![todo_field_view(), add_button_view()],
    }
}

/// The checkbox of a row. It carries the attribute `checked` exactly when
/// the todo is completed, and a click toggles the todo at the position of
/// the row.
pub open spec fn todo_checkbox_view(index: usize, completed: bool) -> ElementView {
    ElementView {
        tag: "input"@,
        attributes: if completed {
            seq![("class"@, "todo-checkbox"@), ("type"@, "checkbox"@), ("checked"@, "true"@)]
        } else {
            seq![("class"@, "todo-checkbox"@), ("type"@, "checkbox"@)]
        },
        styles: Seq::empty(),
        text: None,
        listeners: seq![("click"@, Handler::Dispatch(Action::Todo(TodoOperation::Toggle(index))))],
        children: Seq::empty(),
    }
}

/// The text of a row.
pub open spec fn todo_text_view(text: Seq<char>) -> ElementView {
    ElementView {
        tag: "span"@,
        attributes: seq![("class"@, "todo-text"@)],
        styles: Seq::empty(),
        text: Some(text),
        listeners: Seq::empty(),
        children: Seq::empty(),
    }
}

/// The delete control of a row: a click removes the todo at the position of
/// the row.
pub open spec fn todo_delete_view(index: usize) -> ElementView {
    ElementView {
        tag: "button"@,
        attributes: seq![("class"@, "todo-delete"@)],
        styles: Seq::empty(),
        text: Some("Delete"@),
        listeners: seq![("click"@, Handler::Dispatch(Action::Todo(TodoOperation::Remove(index))))],
        children: Seq::empty(),
    }
}

/// The row of the todo at position `index`: the checkbox, the text and the
/// delete control.
pub open spec fn todo_item_view(index: usize, todo: TodoView) -> ElementView {
    ElementView {
        tag: "div"@,
        attributes: seq![
            (
                "class"@,
                if todo.completed {
                    "todo-item completed"@
                } else {
                    "todo-item"@
                },
            ),
        ],
        styles: Seq::empty(),
        text: None,
        listeners: Seq::empty(),
        children: seq![
            todo_checkbox_view(index, todo.completed),
            todo_text_view(todo.text),
            todo_delete_view(index),
        ],
    }
}

/// The rows of a list of todos, one for each todo, in the order of the list.
pub open spec fn todo_rows_view(todos: Seq<TodoView>) -> Seq<ElementView> {
    Seq::new(todos.len(), |i: int| todo_item_view(i as usize, todos[i]))
}

/// The todo list: the input box, then the rows.
pub open spec fn todo_list_view(todos: Seq<TodoView>) -> ElementView {
    ElementView {
        tag: "div"@,
        attributes: seq![("id"@, "todo-list"@)],
        styles: Seq::empty(),
        text: None,
        listeners: Seq::empty(),
        children: seq![
            todo_input_view(),
            ElementView {
                tag: "div"@,
                attributes: seq![("class"@, "todos"@)],
                styles: Seq::empty(),
                text: None,
                listeners: Seq::empty(),
                children: todo_rows_view(todos),
            },
        ],
    }
}

/// The state after a todo with the text `text` is added: the new todo
/// stands at the end of the list and is not completed.
pub open spec fn add_todo_spec(state: AppStateView, text: Seq<char>) -> AppStateView {
    AppStateView { todos: state.todos.push(TodoView { text, completed: false }), ..state }
}

/// Adds a todo with the text `text` at the end of the list and renders the
/// new state.
pub fn add_todo(store: &mut Store, text: String) -> (patches: Vec<Patch>)
    ensures
        final(store)@ == add_todo_spec(old(store)@, text@),
        patches_view(patches@) == render_spec(final(store)@),
{
    let ghost added = text@;
    let updater = move |state: AppState| -> (next: AppState)
        ensures
            next@ == add_todo_spec(state@, added),
        {
            let mut state = state;
            let ghost before = state@.todos;
            state.todos.push(Todo { text, completed: false });
            assert(state@.todos =~= before.push(TodoView { text: added, completed: false }));
            state
        };
    let patches = update_state(store, updater);
    proof {
        store.lemma_view();
    }
    patches
}

/// Whether a key submits the todo input: the Enter key does.
pub fn is_submit_key(key: &str) -> (submits: bool)
    ensures
        submits == (key@ == "Enter"@),
{
    crate::utils::str_eq(key, "Enter")
}

/// Adds the text that was read from the todo input as a new todo. Nothing
/// is added, and `None` is returned, where the input could not be read or
/// holds no text. After a todo was added the input is to be emptied.
pub fn handle_add_todo(store: &mut Store, input: Option<&str>) -> (patches: Option<Vec<Patch>>)
    ensures
        match input {
            Some(text) if text@.len() > 0 => patches is Some && final(store)@ == add_todo_spec(
                old(store)@,
                text@,
            ) && patches_view(patches->0@) == render_spec(final(store)@),
            _ => patches is None && final(store)@ == old(store)@,
        },
{
    match input {
        Some(text) => {
            if !text.is_empty() {
                Some(add_todo(store, crate::utils::owned(text)))
            } else {
                None
            }
        },
        None => None,
    }
}

/// The input box of the todo list.
pub fn todo_input() -> (element: Element)
    ensures
        element@ == todo_input_view(),
{
    let field = vec![
        attr("id", "todo-input"),
        attr("class", "input-field"),
        attr("type", "text"),
        attr("placeholder", "Add new todo"),
        on("keydown", Handler::AddTodoOnEnter),
    ];
    let button = vec![text("Add Todo"), attr("class", "btn"), on("click", Handler::AddTodo)];
    let ghost field_items = directives_view(field@);
    let ghost button_items = directives_view(button@);
    let items = vec![attr("class", "input-container"), child("input", field), child("button", button)];
    proof {
        lemma_vocabulary();
        let f0 = ElementView::empty("input"@);
        let f1 = f0.set_attribute("id"@, "todo-input"@);
        let f2 = f1.set_attribute("class"@, "input-field"@);
        let f3 = f2.set_attribute("type"@, "text"@);
        let f4 = f3.set_attribute("placeholder"@, "Add new todo"@);
        let f5 = f4.add_listener("keydown"@, Handler::AddTodoOnEnter);
        lemma_build("input"@, field_items, seq![f0, f1, f2, f3, f4, f5]);
        reveal_with_fuel(crate::dom::assign, 5);
        assert(f5.attributes =~= todo_field_view().attributes);
        assert(f5.listeners =~= todo_field_view().listeners);
        let b0 = ElementView::empty("button"@);
        let b1 = b0.set_text("Add Todo"@);
        let b2 = b1.set_attribute("class"@, "btn"@);
        let b3 = b2.add_listener("click"@, Handler::AddTodo);
        lemma_build("button"@, button_items, seq![b0, b1, b2, b3]);
        assert(b3.attributes =~= add_button_view().attributes);
        assert(b3.listeners =~= add_button_view().listeners);
        let e0 = ElementView::empty("div"@);
        let e1 = e0.set_attribute("class"@, "input-container"@);
        let e2 = e1.append_child(f5);
        let e3 = e2.append_child(b3);
        lemma_build("div"@, directives_view(items@), seq![e0, e1, e2, e3]);
        assert(e3.attributes =~= todo_input_view().attributes);
        assert(e3.children =~= todo_input_view().children);
    }
    build("div", items).unwrap()
}

/// The row of the todo at position `index`.
pub fn render_todo_item(index: usize, todo: &Todo) -> (element: Element)
    ensures
        element@ == todo_item_view(index, todo@),
{
    let toggle_action = Action::Todo(TodoOperation::Toggle(index));
    let remove_action = Action::Todo(TodoOperation::Remove(index));
    let mut checkbox = vec![attr("class", "todo-checkbox"), attr("type", "checkbox")];
    if todo.completed {
        checkbox.push(attr("checked", "true"));
    }
    checkbox.push(on("click", action_handler(toggle_action)));
    let label = vec![attr("class", "todo-text"), dynamic_text(todo.text.as_str())];
    let delete = vec![
        attr("class", "todo-delete"),
        text("Delete"),
        on("click", action_handler(remove_action)),
    ];
    let ghost checkbox_items = directives_view(checkbox@);
    let ghost label_items = directives_view(label@);
    let ghost delete_items = directives_view(delete@);
    let class_name = if todo.completed {
        "todo-item completed"
    } else {
        "todo-item"
    };
    let items = vec![
        attr("class", class_name),
        child("input", checkbox),
        child("span", label),
        child("button", delete),
    ];
    proof {
        lemma_vocabulary();
        reveal_with_fuel(crate::dom::assign, 4);
        let c0 = ElementView::empty("input"@);
        let c1 = c0.set_attribute("class"@, "todo-checkbox"@);
        let c2 = c1.set_attribute("type"@, "checkbox"@);
        let toggle = Handler::Dispatch(toggle_action);
        let box_view = todo_checkbox_view(index, todo.completed);
        if todo.completed {
            let c3 = c2.set_attribute("checked"@, "true"@);
            let c4 = c3.add_listener("click"@, toggle);
            lemma_build("input"@, checkbox_items, seq![c0, c1, c2, c3, c4]);
            assert(c4.attributes =~= box_view.attributes);
            assert(c4.listeners =~= box_view.listeners);
        } else {
            let c3 = c2.add_listener("click"@, toggle);
            lemma_build("input"@, checkbox_items, seq![c0, c1, c2, c3]);
            assert(c3.attributes =~= box_view.attributes);
            assert(c3.listeners =~= box_view.listeners);
        }
        let l0 = ElementView::empty("span"@);
        let l1 = l0.set_attribute("class"@, "todo-text"@);
        let l2 = l1.set_text(todo.text@);
        lemma_build("span"@, label_items, seq![l0, l1, l2]);
        assert(l2.attributes =~= todo_text_view(todo.text@).attributes);
        let d0 = ElementView::empty("button"@);
        let d1 = d0.set_attribute("class"@, "todo-delete"@);
        let d2 = d1.set_text("Delete"@);
        let d3 = d2.add_listener("click"@, Handler::Dispatch(remove_action));
        lemma_build("button"@, delete_items, seq![d0, d1, d2, d3]);
        assert(d3.attributes =~= todo_delete_view(index).attributes);
        assert(d3.listeners =~= todo_delete_view(index).listeners);
        let e0 = ElementView::empty("div"@);
        let e1 = e0.set_attribute("class"@, class_name@);
        let e2 = e1.append_child(box_view);
        let e3 = e2.append_child(l2);
        let e4 = e3.append_child(d3);
        lemma_build("div"@, directives_view(items@), seq![e0, e1, e2, e3, e4]);
        assert(e4.attributes =~= todo_item_view(index, todo@).attributes);
        assert(e4.children =~= todo_item_view(index, todo@).children);
    }
    build("div", items).unwrap()
}

/// The todo list of the todos: the input box, then one row for each todo in
/// the order of the list.
pub fn todo_list(todos: &Vec<Todo>) -> (element: Element)
    ensures
        element@ == todo_list_view(todos_view(todos@)),
{
    let row = |index: usize, todo: &Todo| -> (element: Element)
        ensures
            element@ == todo_item_view(index, todo@),
        {
            render_todo_item(index, todo)
        };
    let rows = map_indexed(todos, row);
    let ghost row_views = elements_view(rows@);
    let list = vec![attr("class", "todos"), iter_expr(rows)];
    let ghost list_items = directives_view(list@);
    let items = vec![attr("id", "todo-list"), child_expr(todo_input()), child("div", list)];
    proof {
        lemma_vocabulary();
        assert(row_views =~= todo_rows_view(todos_view(todos@)));
        let l0 = ElementView::empty("div"@);
        let l1 = l0.set_attribute("class"@, "todos"@);
        let l2 = l1.append_children(row_views);
        lemma_build("div"@, list_items, seq![l0, l1, l2]);
        assert(l2.attributes =~= seq![("class"@, "todos"@)]);
        assert(l2.children =~= row_views);
        let e0 = ElementView::empty("div"@);
        let e1 = e0.set_attribute("id"@, "todo-list"@);
        let e2 = e1.append_child(todo_input_view());
        let e3 = e2.append_child(l2);
        lemma_build("div"@, directives_view(items@), seq![e0, e1, e2, e3]);
        assert(e3.attributes =~= todo_list_view(todos_view(todos@)).attributes);
        assert(e3.children =~= todo_list_view(todos_view(todos@)).children);
    }
    build("div", items).unwrap()
}

} // verus!

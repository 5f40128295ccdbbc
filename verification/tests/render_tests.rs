use rsx_ui::components::counter::counter_actions;
use rsx_ui::components::todo::{add_todo, handle_add_todo, todo_list};
use rsx_ui::components::toggle_theme::toggle_theme_button;
use rsx_ui::components::visibility::toggle_visibility;
use rsx_ui::content_loader::{Article, Content};
use rsx_ui::dom::{Element, Patch};
use rsx_ui::render::{mount, render, render_articles, render_nav, render_page, render_route_content};
use rsx_ui::router::{navigate_to, Route};
use rsx_ui::rsx::{attr, build, child, text};
use rsx_ui::state::actions::{Action, Operation, TodoOperation};
use rsx_ui::state::app_state::{AppState, Todo, Visibility};
use rsx_ui::state::{dispatch, update_state, Store};
use rsx_ui::theme::Theme;

fn no_content() -> Content {
    Content { articles: Vec::new() }
}

fn article(title: &str, tags: &[&str]) -> Article {
    Article {
        title: title.to_string(),
        content: format!("{} body", title),
        date: "2024-01-01".to_string(),
        author: "A. Writer".to_string(),
        tags: tags.iter().map(|tag| tag.to_string()).collect(),
    }
}

fn todo_rows(page: &Element) -> &Vec<Element> {
    let container = page.get_element_by_id("todo-container").unwrap();
    assert_eq!(container.children().len(), 1);
    container.children()[0].children()[1].children()
}

#[test]
fn test_render_writes_four_regions() {
    let mut state = AppState::default();
    state.counter = 42;
    state.theme = Theme::Dark;
    state.visibility = Visibility::Hidden;
    state.todos.push(Todo { text: "x".to_string(), completed: true });
    let patches = render(&state);
    assert_eq!(
        patches,
        vec![
            Patch::SetText { id: "count".to_string(), text: "42".to_string() },
            Patch::SetClass { id: "app".to_string(), class_name: "theme-dark".to_string() },
            Patch::SetStyle {
                id: "content".to_string(),
                property: "display".to_string(),
                value: "none".to_string(),
            },
            Patch::ReplaceContent {
                id: "todo-container".to_string(),
                children: vec![todo_list(&state.todos)],
            },
        ]
    );
}

#[test]
fn test_render_does_not_change_the_state() {
    let mut state = AppState::default();
    state.counter = 3;
    let before = state.clone();
    render(&state);
    render(&state);
    assert_eq!(state, before);
}

#[test]
fn test_counter_text_is_decimal_string() {
    for (counter, expected) in [
        (0, "0"),
        (7, "7"),
        (10, "10"),
        (-1, "-1"),
        (-120, "-120"),
        (1234567, "1234567"),
        (i32::MAX, "2147483647"),
        (i32::MIN, "-2147483648"),
    ] {
        let mut state = AppState::default();
        state.counter = counter;
        let patches = render(&state);
        assert_eq!(
            patches[0],
            Patch::SetText { id: "count".to_string(), text: expected.to_string() }
        );
    }
}

#[test]
fn test_mount_builds_the_application_root() {
    let state = AppState::default();
    let page = mount(&state, &Route::Home, &no_content());
    assert_eq!(page.tag_name(), "div");
    assert_eq!(page.get_attribute("id"), Some("app"));
    assert_eq!(page.get_attribute("class"), Some("app-container theme-light"));
    assert_eq!(page.children().len(), 5);
    assert_eq!(page.children()[0], render_nav());
    assert_eq!(page.children()[1], render_route_content(&Route::Home, &state, &no_content()));
    assert_eq!(page.children()[2], toggle_visibility());
    assert_eq!(page.children()[3], counter_actions());
    assert_eq!(page.children()[4], toggle_theme_button());
    assert_eq!(render_page(&Route::Home, &state, &no_content()).len(), 5);
    let content = page.get_element_by_id("content").unwrap();
    assert_eq!(content.text_content(), Some("Counter: "));
    let count = page.get_element_by_id("count").unwrap();
    assert_eq!(count.tag_name(), "span");
    assert_eq!(count.get_attribute("class"), Some("counter"));
    assert_eq!(count.text_content(), Some("0"));
    assert!(page.get_element_by_id("todo-input").is_some());
    assert!(page.get_element_by_id("todo-list").is_some());
}

#[test]
fn test_mount_shows_the_theme_of_the_provider() {
    let mut store = Store::new();
    dispatch(&mut store, Action::ToggleTheme);
    let page = mount(store.read(), &Route::About, &no_content());
    assert_eq!(page.get_attribute("class"), Some("app-container theme-dark"));
}

#[test]
fn test_route_content_pages() {
    let state = AppState::default();
    let about = render_route_content(&Route::About, &state, &no_content());
    assert_eq!(about.get_attribute("class"), Some("about-page"));
    assert_eq!(about.children()[0].tag_name(), "h1");
    assert_eq!(about.children()[0].text_content(), Some("About Us"));
    assert_eq!(about.children()[1].tag_name(), "p");
    assert_eq!(about.children()[1].text_content(), Some("This is the about page content."));
    let missing = render_route_content(&Route::NotFound, &state, &no_content());
    assert_eq!(missing.get_attribute("class"), Some("not-found"));
    assert_eq!(missing.children()[0].text_content(), Some("404 - Page Not Found"));
    assert_eq!(
        missing.children()[1].text_content(),
        Some("The page you're looking for doesn't exist.")
    );
    let content = Content { articles: vec![article("One", &["a"])] };
    let articles = render_route_content(&Route::Articles, &state, &content);
    assert_eq!(articles, render_articles(&content));
}

#[test]
fn test_render_articles() {
    let content = Content { articles: vec![article("First", &["rust", "wasm"]), article("Second", &[])] };
    let section = render_articles(&content);
    assert_eq!(section.tag_name(), "section");
    assert_eq!(section.get_attribute("id"), Some("articles"));
    assert_eq!(section.get_attribute("class"), Some("articles-section"));
    assert_eq!(section.children().len(), 2);
    let card = &section.children()[0];
    assert_eq!(card.get_attribute("class"), Some("article-card"));
    assert_eq!(card.children().len(), 4);
    assert_eq!(card.children()[0].tag_name(), "h2");
    assert_eq!(card.children()[0].text_content(), Some("First"));
    let meta = &card.children()[1];
    assert_eq!(meta.get_attribute("class"), Some("article-meta"));
    assert_eq!(meta.children()[0].text_content(), Some("2024-01-01"));
    assert_eq!(meta.children()[1].text_content(), Some("A. Writer"));
    let tags = &card.children()[2];
    assert_eq!(tags.get_attribute("class"), Some("article-tags"));
    assert_eq!(tags.children().len(), 2);
    assert_eq!(tags.children()[0].tag_name(), "span");
    assert_eq!(tags.children()[0].get_attribute("class"), Some("tag"));
    assert_eq!(tags.children()[0].text_content(), Some("rust"));
    assert_eq!(tags.children()[1].text_content(), Some("wasm"));
    assert_eq!(card.children()[3].tag_name(), "p");
    assert_eq!(card.children()[3].text_content(), Some("First body"));
    assert!(section.children()[1].children()[2].children().is_empty());
    assert!(render_articles(&no_content()).children().is_empty());
}

#[test]
fn test_render_twice_is_idempotent() {
    let mut store = Store::new();
    let mut page = mount(store.read(), &Route::Home, &no_content());
    add_todo(&mut store, "first".to_string());
    dispatch(&mut store, Action::Counter(Operation::Decrement));
    dispatch(&mut store, Action::ToggleTheme);
    page.apply_all(render(store.read()));
    let once = mount(store.read(), &Route::Home, &no_content());
    let mut once = once;
    once.apply_all(render(store.read()));
    page.apply_all(render(store.read()));
    assert_eq!(page, once);
    let patches_first = render(store.read());
    let patches_second = render(store.read());
    assert_eq!(patches_first, patches_second);
}

#[test]
fn test_render_repeats_only_where_regions_are_apart() {
    // A todo container that holds a counter element, with a second counter
    // element after it: building the todo list anew takes the first one off
    // the page, and the next pass writes to the second one.
    let mut state = AppState::default();
    state.counter = 5;
    let overlapping = || {
        build(
            "div",
            vec![
                child(
                    "div",
                    vec![
                        attr("id", "todo-container"),
                        child("span", vec![attr("id", "count"), text("inside")]),
                    ],
                ),
                child("span", vec![attr("id", "count"), text("outside")]),
            ],
        )
        .unwrap()
    };
    let mut once = overlapping();
    once.apply_all(render(&state));
    assert_eq!(once.children()[1].text_content(), Some("outside"));
    let mut twice = overlapping();
    twice.apply_all(render(&state));
    twice.apply_all(render(&state));
    assert_eq!(twice.children()[1].text_content(), Some("5"));
    assert_ne!(once, twice);
}

#[test]
fn test_rendered_regions_show_the_state() {
    let mut store = Store::new();
    let mut page = mount(store.read(), &Route::Home, &no_content());
    add_todo(&mut store, "a".to_string());
    add_todo(&mut store, "b".to_string());
    dispatch(&mut store, Action::Counter(Operation::Decrement));
    dispatch(&mut store, Action::ToggleTheme);
    dispatch(&mut store, Action::ToggleVisibility);
    page.apply_all(render(store.read()));
    assert_eq!(page.get_element_by_id("count").unwrap().text_content(), Some("-1"));
    assert_eq!(page.get_element_by_id("app").unwrap().get_attribute("class"), Some("theme-dark"));
    assert_eq!(
        page.get_element_by_id("content").unwrap().get_style_property("display"),
        Some("none")
    );
    let container = page.get_element_by_id("todo-container").unwrap();
    assert_eq!(container.text_content(), None);
    assert_eq!(container.children(), &vec![todo_list(&store.read().todos)]);
    dispatch(&mut store, Action::ToggleVisibility);
    page.apply_all(render(store.read()));
    assert_eq!(
        page.get_element_by_id("content").unwrap().get_style_property("display"),
        Some("block")
    );
}

fn count_listeners(element: &Element) -> usize {
    element.listeners().len() + element.children().iter().map(count_listeners).sum::<usize>()
}

#[test]
fn test_rebuilding_the_todo_list_leaves_no_listeners_behind() {
    let mut store = Store::new();
    let mut page = mount(store.read(), &Route::Home, &no_content());
    let outside = count_listeners(&page) - 2;
    for round in 0..5 {
        page.apply_all(add_todo(&mut store, format!("todo {}", round)));
        page.apply_all(render(store.read()));
        page.apply_all(dispatch(&mut store, Action::ToggleTheme));
        let todos = store.read().todos.len();
        let container = page.get_element_by_id("todo-container").unwrap();
        assert_eq!(count_listeners(container), 2 + 2 * todos);
        assert_eq!(count_listeners(&page), outside + 2 + 2 * todos);
    }
    page.apply_all(dispatch(&mut store, Action::Todo(TodoOperation::Remove(0))));
    page.apply_all(dispatch(&mut store, Action::Todo(TodoOperation::Remove(0))));
    assert_eq!(count_listeners(&page), outside + 2 + 2 * 3);
}

#[test]
fn test_render_skips_missing_regions() {
    let mut state = AppState::default();
    state.counter = 5;
    let mut page = build(
        "div",
        vec![attr("id", "other"), child("span", vec![attr("id", "count"), text("0")])],
    )
    .unwrap();
    page.apply_all(render(&state));
    assert_eq!(page.get_element_by_id("count").unwrap().text_content(), Some("5"));
    assert_eq!(page.get_attribute("class"), None);
    assert!(page.styles().is_empty());
    assert_eq!(page.children().len(), 1);
    let mut bare = Element::new("main").unwrap();
    bare.apply_all(render(&state));
    assert_eq!(bare, Element::new("main").unwrap());
}

#[test]
fn test_end_to_end() {
    let mut store = Store::new();
    assert_eq!(*store.read(), AppState::default());
    let mut page = mount(store.read(), &Route::Home, &no_content());

    page.apply_all(dispatch(&mut store, Action::Counter(Operation::Increment)));
    assert_eq!(page.get_element_by_id("count").unwrap().text_content(), Some("1"));

    page.apply_all(dispatch(&mut store, Action::ToggleVisibility));
    assert_eq!(
        page.get_element_by_id("content").unwrap().get_style_property("display"),
        Some("none")
    );

    let patches = handle_add_todo(&mut store, Some("buy milk")).unwrap();
    page.apply_all(patches);
    {
        let rows = todo_rows(&page);
        assert_eq!(rows.len(), 1);
        assert_eq!(rows[0].children()[1].text_content(), Some("buy milk"));
        assert_eq!(rows[0].children()[0].get_attribute("checked"), None);
        assert_eq!(rows[0].get_attribute("class"), Some("todo-item"));
    }

    page.apply_all(dispatch(&mut store, Action::Todo(TodoOperation::Toggle(0))));
    {
        let rows = todo_rows(&page);
        assert_eq!(rows.len(), 1);
        assert_eq!(rows[0].children()[0].get_attribute("checked"), Some("true"));
        assert_eq!(rows[0].get_attribute("class"), Some("todo-item completed"));
        assert_eq!(rows[0].children()[1].text_content(), Some("buy milk"));
    }

    page.apply_all(dispatch(&mut store, Action::Todo(TodoOperation::Remove(0))));
    assert!(todo_rows(&page).is_empty());
    assert!(store.read().todos.is_empty());
    assert_eq!(store.read().counter, 1);
    assert_eq!(page.get_element_by_id("count").unwrap().text_content(), Some("1"));
    assert_eq!(page.get_attribute("class"), Some("theme-light"));
}

#[test]
fn test_toggle_theme_twice_on_the_page() {
    let mut store = Store::new();
    let mut page = mount(store.read(), &Route::Home, &no_content());
    page.apply_all(render(store.read()));
    let before = mount(store.read(), &Route::Home, &no_content());
    let mut before = before;
    before.apply_all(render(store.read()));
    page.apply_all(dispatch(&mut store, Action::ToggleTheme));
    assert_eq!(page.get_attribute("class"), Some("theme-dark"));
    assert_eq!(store.read().theme, Theme::Dark);
    page.apply_all(dispatch(&mut store, Action::ToggleTheme));
    assert_eq!(page.get_attribute("class"), Some("theme-light"));
    assert_eq!(*store.read(), AppState::default());
    assert_eq!(page, before);
}

#[test]
fn test_add_todo() {
    let mut store = Store::new();
    let patches = add_todo(&mut store, "Test todo".to_string());
    assert_eq!(store.read().todos.len(), 1);
    assert_eq!(store.read().todos[0].text, "Test todo");
    assert_eq!(store.read().todos[0].completed, false);
    assert_eq!(patches, render(store.read()));
    add_todo(&mut store, "Test todo".to_string());
    add_todo(&mut store, String::new());
    assert_eq!(store.read().todos.len(), 3);
    assert_eq!(store.read().todos[2].text, "");
}

#[test]
fn test_handle_add_todo() {
    let mut store = Store::new();
    let patches = handle_add_todo(&mut store, Some("Test todo via handler"));
    assert_eq!(store.read().todos.len(), 1);
    assert_eq!(store.read().todos[0].text, "Test todo via handler");
    assert_eq!(patches, Some(render(store.read())));
    assert_eq!(handle_add_todo(&mut store, Some("")), None);
    assert_eq!(handle_add_todo(&mut store, None), None);
    assert_eq!(store.read().todos.len(), 1);
}

#[test]
fn test_add_many_todos() {
    for iterations in [10usize, 50, 100] {
        let mut store = Store::new();
        for i in 0..iterations {
            add_todo(&mut store, format!("Todo {}", i));
        }
        assert_eq!(store.read().todos.len(), iterations);
        assert_eq!(store.read().todos[iterations - 1].text, format!("Todo {}", iterations - 1));
    }
}

#[test]
fn test_update_state_commits_and_renders() {
    let mut store = Store::new();
    let patches = update_state(&mut store, |mut state| {
        state.counter = 9;
        state
    });
    assert_eq!(store.read().counter, 9);
    assert_eq!(patches, render(store.read()));
}

#[test]
fn test_navigate_to() {
    let mut store = Store::new();
    add_todo(&mut store, "kept".to_string());
    let content = Content { articles: vec![article("One", &[])] };
    let navigation = navigate_to(&mut store, Route::Articles, &content);
    assert_eq!(navigation.path, "/articles");
    assert_eq!(store.read().current_route, Route::Articles);
    assert_eq!(store.read().todos.len(), 1);
    assert_eq!(navigation.patches.len(), 5);
    assert_eq!(
        navigation.patches[0],
        Patch::ReplaceContent {
            id: "app".to_string(),
            children: render_page(&Route::Articles, store.read(), &content),
        }
    );
    assert_eq!(navigation.patches[1..], render(store.read())[..]);
    let mut page = mount(store.read(), &Route::Home, &no_content());
    page.apply_all(navigation.patches);
    assert!(page.get_element_by_id("articles").is_some());
    assert!(page.get_element_by_id("count").is_none());
    let navigation = navigate_to(&mut store, Route::Home, &no_content());
    assert_eq!(navigation.path, "/");
    page.apply_all(navigation.patches);
    assert_eq!(page.get_element_by_id("count").unwrap().text_content(), Some("0"));
    assert_eq!(todo_rows(&page).len(), 1);
    assert!(Route::Articles.needs_content());
    assert!(!Route::Home.needs_content());
    assert!(!Route::About.needs_content());
    assert!(!Route::NotFound.needs_content());
}

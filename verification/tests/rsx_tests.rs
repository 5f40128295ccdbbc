use rsx_ui::action_handler;
use rsx_ui::dom::{is_valid_name, BuildError, Element, Handler};
use rsx_ui::router::Route;
use rsx_ui::rsx::{
    attr, build, child, child_expr, dynamic_text, iter_expr, map_indexed, on, text, Directive,
};
use rsx_ui::state::actions::{Action, Operation};

#[test]
fn test_build_empty_template_gives_bare_element() {
    let element = build("div", Vec::new()).unwrap();
    assert_eq!(element.tag_name(), "div");
    assert!(element.attributes().is_empty());
    assert!(element.styles().is_empty());
    assert_eq!(element.text_content(), None);
    assert!(element.listeners().is_empty());
    assert!(element.children().is_empty());
    assert_eq!(element, Element::new("div").unwrap());
}

#[test]
fn test_build_applies_directives_in_order() {
    let element = build(
        "button",
        vec![
            attr("class", "btn"),
            text("first"),
            on("click", Handler::AddTodo),
            attr("id", "go"),
            text("second"),
        ],
    )
    .unwrap();
    assert_eq!(element.tag_name(), "button");
    assert_eq!(
        element.attributes(),
        &vec![("class".to_string(), "btn".to_string()), ("id".to_string(), "go".to_string())]
    );
    assert_eq!(element.text_content(), Some("second"));
    assert_eq!(element.listeners(), &vec![("click".to_string(), Handler::AddTodo)]);
}

#[test]
fn test_later_attribute_overwrites_earlier_one_in_place() {
    let element = build(
        "input",
        vec![attr("type", "text"), attr("class", "a"), attr("type", "checkbox")],
    )
    .unwrap();
    assert_eq!(element.get_attribute("type"), Some("checkbox"));
    assert_eq!(element.get_attribute("class"), Some("a"));
    assert_eq!(element.get_attribute("id"), None);
    assert_eq!(
        element.attributes(),
        &vec![
            ("type".to_string(), "checkbox".to_string()),
            ("class".to_string(), "a".to_string()),
        ]
    );
}

#[test]
fn test_later_text_overwrites_earlier_text() {
    let count = 7;
    let element = build(
        "span",
        vec![text("zero"), dynamic_text(&count.to_string()), dynamic_text("last")],
    )
    .unwrap();
    assert_eq!(element.text_content(), Some("last"));
    let element = build("span", vec![dynamic_text("dynamic"), text("literal")]).unwrap();
    assert_eq!(element.text_content(), Some("literal"));
}

#[test]
fn test_event_bindings_accumulate() {
    let increment = action_handler(Action::Counter(Operation::Increment));
    let element = build(
        "div",
        vec![
            on("click", increment),
            on("keydown", Handler::AddTodoOnEnter),
            on("click", Handler::Navigate(Route::About)),
        ],
    )
    .unwrap();
    assert_eq!(
        element.listeners(),
        &vec![
            ("click".to_string(), Handler::Dispatch(Action::Counter(Operation::Increment))),
            ("keydown".to_string(), Handler::AddTodoOnEnter),
            ("click".to_string(), Handler::Navigate(Route::About)),
        ]
    );
}

#[test]
fn test_children_append_in_document_order() {
    let prebuilt = build("em", vec![text("ready")]).unwrap();
    let rows = vec![build("li", vec![text("x")]).unwrap(), build("li", vec![text("y")]).unwrap()];
    let element = build(
        "section",
        vec![
            child("h1", vec![text("title")]),
            child_expr(prebuilt),
            iter_expr(rows),
            child("p", vec![attr("class", "end")]),
        ],
    )
    .unwrap();
    let tags: Vec<&str> = element.children().iter().map(|child| child.tag_name()).collect();
    assert_eq!(tags, vec!["h1", "em", "li", "li", "p"]);
    assert_eq!(element.children()[0].text_content(), Some("title"));
    assert_eq!(element.children()[1].text_content(), Some("ready"));
    assert_eq!(element.children()[2].text_content(), Some("x"));
    assert_eq!(element.children()[3].text_content(), Some("y"));
    assert_eq!(element.children()[4].get_attribute("class"), Some("end"));
}

#[test]
fn test_nested_templates_are_built_recursively() {
    let element = build(
        "div",
        vec![child("ul", vec![child("li", vec![child("span", vec![text("deep")])])])],
    )
    .unwrap();
    let span = &element.children()[0].children()[0].children()[0];
    assert_eq!(span.tag_name(), "span");
    assert_eq!(span.text_content(), Some("deep"));
}

#[test]
fn test_iter_expr_tolerates_empty_sequence() {
    let element = build("ul", vec![attr("class", "list"), iter_expr(Vec::new())]).unwrap();
    assert!(element.children().is_empty());
    assert_eq!(element.get_attribute("class"), Some("list"));
}

#[test]
fn test_map_indexed_follows_sequence_order() {
    let labels = vec!["a".to_string(), "b".to_string(), "c".to_string()];
    let elements = map_indexed(&labels, |index, label| {
        build("li", vec![attr("id", &format!("item-{}", index)), dynamic_text(label)]).unwrap()
    });
    assert_eq!(elements.len(), 3);
    assert_eq!(elements[0].get_attribute("id"), Some("item-0"));
    assert_eq!(elements[2].get_attribute("id"), Some("item-2"));
    assert_eq!(elements[1].text_content(), Some("b"));
    let none: Vec<String> = Vec::new();
    assert!(map_indexed(&none, |_, _| Element::new("li").unwrap()).is_empty());
}

#[test]
fn test_invalid_tag_fails_the_build() {
    assert_eq!(build("", Vec::new()), Err(BuildError::InvalidTag));
    assert_eq!(build("two words", vec![text("x")]), Err(BuildError::InvalidTag));
    assert_eq!(build("1st", Vec::new()), Err(BuildError::InvalidTag));
    assert_eq!(build("<div>", Vec::new()), Err(BuildError::InvalidTag));
    assert_eq!(Element::new("-x"), Err(BuildError::InvalidTag));
}

#[test]
fn test_invalid_attribute_fails_the_build() {
    assert_eq!(
        build("div", vec![attr("class", "ok"), attr("bad name", "x")]),
        Err(BuildError::InvalidAttribute)
    );
    assert_eq!(build("div", vec![attr("", "x")]), Err(BuildError::InvalidAttribute));
}

#[test]
fn test_failure_in_nested_template_fails_the_whole_build() {
    let result = build(
        "div",
        vec![attr("class", "outer"), child("ul", vec![child("l i", vec![text("x")])])],
    );
    assert_eq!(result, Err(BuildError::InvalidTag));
    let result = build("div", vec![child("p", vec![attr("a=b", "x")]), attr("also bad", "y")]);
    assert_eq!(result, Err(BuildError::InvalidAttribute));
}

#[test]
fn test_first_refused_directive_decides_the_error() {
    let result = build("div", vec![attr("no good", "x"), child("bad tag", Vec::new())]);
    assert_eq!(result, Err(BuildError::InvalidAttribute));
    let result = build("div", vec![child("bad tag", Vec::new()), attr("no good", "x")]);
    assert_eq!(result, Err(BuildError::InvalidTag));
}

#[test]
fn test_valid_names() {
    assert!(is_valid_name("div"));
    assert!(is_valid_name("h1"));
    assert!(is_valid_name("data-id"));
    assert!(is_valid_name("_private"));
    assert!(is_valid_name("Element_2"));
    assert!(!is_valid_name(""));
    assert!(!is_valid_name("9lives"));
    assert!(!is_valid_name("-dash"));
    assert!(!is_valid_name("a b"));
    assert!(!is_valid_name("caf\u{e9}"));
    assert!(!is_valid_name("a=b"));
}

#[test]
fn test_directive_constructors() {
    assert_eq!(attr("id", "x"), Directive::Attribute("id".to_string(), "x".to_string()));
    assert_eq!(text("t"), Directive::LiteralText("t"));
    assert_eq!(dynamic_text("d"), Directive::DynamicText("d".to_string()));
    assert_eq!(
        on("click", Handler::AddTodo),
        Directive::EventBinding("click".to_string(), Handler::AddTodo)
    );
    assert_eq!(
        child("p", vec![text("t")]),
        Directive::Child("p".to_string(), vec![Directive::LiteralText("t")])
    );
    assert_eq!(
        action_handler(Action::ToggleTheme),
        Handler::Dispatch(Action::ToggleTheme)
    );
}

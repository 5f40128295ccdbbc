use rsx_ui::dom::{BuildError, Element, Handler, Patch};
use rsx_ui::rsx::{attr, build, child, text};
use rsx_ui::theme::ThemeProvider;

fn page() -> Element {
    build(
        "div",
        vec![
            attr("id", "root"),
            child("span", vec![attr("id", "first"), text("one")]),
            child(
                "div",
                vec![
                    attr("id", "box"),
                    child("span", vec![attr("id", "inner"), text("two")]),
                    child("span", vec![attr("id", "dup"), text("early")]),
                ],
            ),
            child("span", vec![attr("id", "dup"), text("late")]),
        ],
    )
    .unwrap()
}

#[test]
fn test_element_operations() {
    let mut element = Element::new("div").unwrap();
    assert_eq!(element.set_attribute("id", "a"), Ok(()));
    assert_eq!(element.set_attribute("id", "b"), Ok(()));
    assert_eq!(element.get_attribute("id"), Some("b"));
    assert!(element.has_id("b"));
    assert!(!element.has_id("a"));
    element.set_class_name("x y");
    assert_eq!(element.get_attribute("class"), Some("x y"));
    element.set_style_property("display", "none");
    element.set_style_property("color", "red");
    element.set_style_property("display", "block");
    assert_eq!(element.get_style_property("display"), Some("block"));
    assert_eq!(element.get_style_property("color"), Some("red"));
    assert_eq!(element.get_style_property("width"), None);
    assert_eq!(element.styles().len(), 2);
    element.set_text_content("hello");
    element.set_text_content("bye");
    assert_eq!(element.text_content(), Some("bye"));
    element.add_event_listener("click", Handler::AddTodo);
    element.add_event_listener("click", Handler::AddTodo);
    assert_eq!(element.listeners().len(), 2);
    element.append_child(Element::new("p").unwrap());
    element.append_children(vec![Element::new("a").unwrap(), Element::new("b").unwrap()]);
    assert_eq!(element.children().len(), 3);
    assert_eq!(element.children()[2].tag_name(), "b");
    element.clear();
    assert_eq!(element.text_content(), None);
    assert!(element.children().is_empty());
    assert_eq!(element.get_attribute("id"), Some("b"));
    assert_eq!(element.listeners().len(), 2);
}

#[test]
fn test_refused_attribute_leaves_element_unchanged() {
    let mut element = Element::new("div").unwrap();
    element.set_attribute("id", "a").unwrap();
    let before = build("div", vec![attr("id", "a")]).unwrap();
    assert_eq!(element.set_attribute("not valid", "x"), Err(BuildError::InvalidAttribute));
    assert_eq!(element, before);
}

#[test]
fn test_get_element_by_id_finds_first_in_document_order() {
    let page = page();
    assert_eq!(page.get_element_by_id("root").unwrap().tag_name(), "div");
    assert_eq!(page.get_element_by_id("first").unwrap().text_content(), Some("one"));
    assert_eq!(page.get_element_by_id("inner").unwrap().text_content(), Some("two"));
    assert_eq!(page.get_element_by_id("dup").unwrap().text_content(), Some("early"));
    assert!(page.get_element_by_id("missing").is_none());
    assert!(page.get_element_by_id("").is_none());
}

#[test]
fn test_patch_with_missing_anchor_is_skipped() {
    let mut changed = page();
    let applied =
        changed.apply(Patch::SetText { id: "missing".to_string(), text: "x".to_string() });
    assert!(!applied);
    assert_eq!(changed, page());
    let applied = changed.apply(Patch::ReplaceContent {
        id: "nowhere".to_string(),
        children: vec![Element::new("p").unwrap()],
    });
    assert!(!applied);
    assert_eq!(changed, page());
}

#[test]
fn test_patches_write_to_their_element() {
    let mut changed = page();
    assert!(changed.apply(Patch::SetText { id: "inner".to_string(), text: "new".to_string() }));
    assert!(changed.apply(Patch::SetClass { id: "box".to_string(), class_name: "c".to_string() }));
    assert!(changed.apply(Patch::SetStyle {
        id: "root".to_string(),
        property: "display".to_string(),
        value: "none".to_string(),
    }));
    assert_eq!(changed.get_element_by_id("inner").unwrap().text_content(), Some("new"));
    assert_eq!(changed.get_element_by_id("box").unwrap().get_attribute("class"), Some("c"));
    assert_eq!(changed.get_style_property("display"), Some("none"));
    assert_eq!(changed.get_element_by_id("first").unwrap().text_content(), Some("one"));
    assert_eq!(changed.children().len(), 3);
}

#[test]
fn test_patch_goes_to_first_element_with_the_id() {
    let mut changed = page();
    assert!(changed.apply(Patch::SetText { id: "dup".to_string(), text: "hit".to_string() }));
    let inside = &changed.children()[1].children()[1];
    let outside = &changed.children()[2];
    assert_eq!(inside.text_content(), Some("hit"));
    assert_eq!(outside.text_content(), Some("late"));
}

#[test]
fn test_replace_content_discards_text_and_children() {
    let mut changed = page();
    let applied = changed.apply(Patch::ReplaceContent {
        id: "box".to_string(),
        children: vec![build("p", vec![text("fresh")]).unwrap()],
    });
    assert!(applied);
    let container = changed.get_element_by_id("box").unwrap();
    assert_eq!(container.children().len(), 1);
    assert_eq!(container.children()[0].text_content(), Some("fresh"));
    assert!(changed.get_element_by_id("inner").is_none());
    assert_eq!(changed.get_element_by_id("dup").unwrap().text_content(), Some("late"));
    let mut texted = build("div", vec![attr("id", "t"), text("old")]).unwrap();
    texted.apply(Patch::ReplaceContent { id: "t".to_string(), children: Vec::new() });
    assert_eq!(texted.text_content(), None);
}

#[test]
fn test_applying_a_patch_twice_is_applying_it_once() {
    let patches = || {
        vec![
            Patch::SetText { id: "dup".to_string(), text: "t".to_string() },
            Patch::SetClass { id: "root".to_string(), class_name: "k".to_string() },
            Patch::SetStyle {
                id: "box".to_string(),
                property: "display".to_string(),
                value: "none".to_string(),
            },
            Patch::ReplaceContent {
                id: "box".to_string(),
                children: vec![build("p", vec![attr("id", "box")]).unwrap()],
            },
        ]
    };
    for (once, twice) in patches().into_iter().zip(patches()) {
        let mut first = page();
        first.apply(once);
        let mut second = page();
        let again = match &twice {
            Patch::SetText { id, text } => Patch::SetText { id: id.clone(), text: text.clone() },
            Patch::SetClass { id, class_name } => {
                Patch::SetClass { id: id.clone(), class_name: class_name.clone() }
            }
            Patch::SetStyle { id, property, value } => Patch::SetStyle {
                id: id.clone(),
                property: property.clone(),
                value: value.clone(),
            },
            Patch::ReplaceContent { id, .. } => Patch::ReplaceContent {
                id: id.clone(),
                children: vec![build("p", vec![attr("id", "box")]).unwrap()],
            },
        };
        second.apply(twice);
        second.apply(again);
        assert_eq!(first, second);
    }
}

#[test]
fn test_later_write_to_the_same_place_wins() {
    let mut both = page();
    both.apply(Patch::SetClass { id: "box".to_string(), class_name: "old".to_string() });
    both.apply(Patch::SetClass { id: "box".to_string(), class_name: "new".to_string() });
    let mut later = page();
    later.apply(Patch::SetClass { id: "box".to_string(), class_name: "new".to_string() });
    assert_eq!(both, later);
}

#[test]
fn test_writes_to_different_regions_commute() {
    let text = || Patch::SetText { id: "inner".to_string(), text: "t".to_string() };
    let class = || Patch::SetClass { id: "box".to_string(), class_name: "c".to_string() };
    let mut one = page();
    one.apply(text());
    one.apply(class());
    let mut other = page();
    other.apply(class());
    other.apply(text());
    assert_eq!(one, other);
}

#[test]
fn test_apply_all_applies_in_order() {
    let mut changed = page();
    changed.apply_all(vec![
        Patch::SetText { id: "first".to_string(), text: "a".to_string() },
        Patch::SetText { id: "gone".to_string(), text: "skipped".to_string() },
        Patch::SetText { id: "first".to_string(), text: "b".to_string() },
    ]);
    assert_eq!(changed.get_element_by_id("first").unwrap().text_content(), Some("b"));
    let mut same = page();
    same.apply_all(Vec::new());
    assert_eq!(same, page());
}

#[test]
fn test_patch_id() {
    assert_eq!(Patch::SetText { id: "a".to_string(), text: String::new() }.id(), "a");
    assert_eq!(Patch::ReplaceContent { id: "b".to_string(), children: Vec::new() }.id(), "b");
}

#[test]
fn test_apply_theme_to_element() {
    let mut root = build("div", vec![attr("id", "app"), attr("class", "plain")]).unwrap();
    let mut provider = ThemeProvider::new();
    provider.apply_theme_to_element(&mut root);
    assert_eq!(root.get_attribute("class"), Some("app-container theme-light"));
    provider.toggle_theme();
    provider.apply_theme_to_element(&mut root);
    assert_eq!(root.get_attribute("class"), Some("app-container theme-dark"));
    assert_eq!(root.attributes().len(), 2);
}

//! The render pass and the pages of the application.
//!
//! The page has fixed identifiers: `app` for the root element, `content`
//! for the content element, `count` for the counter element,
//! `todo-container` for the element that holds the todo list, `todo-list`
//! for the todo list and `todo-input` for its input field.

use vstd::prelude::*;
use vstd::string::StringExecFns;
use crate::components::counter::{counter_actions, counter_actions_view};
use crate::components::lemma_vocabulary;
use crate::components::todo::{todo_list, todo_list_view};
use crate::components::toggle_theme::{toggle_theme_button, toggle_theme_button_view};
use crate::components::visibility::{toggle_visibility, toggle_visibility_view};
use crate::content_loader::{Article, ArticleView, Content, ContentView};
use crate::dom::{elements_view, Element, ElementView, Handler, Patch, PatchView};
use crate::router::Route;
use crate::rsx::{
    attr, build, child, child_expr, directives_view, dynamic_text, iter_expr, lemma_build, on,
    text,
};
use crate::state::app_state::{AppState, AppStateView, TodoView, Visibility};
use crate::theme::ThemeProvider;
use crate::utils::{decimal, format_i32, owned};

verus! {

/// An entry of the navigation menu: a click goes to the route.
pub open spec fn nav_item_view(label: Seq<char>, route: Route) -> ElementView {
    ElementView {
        tag: "li"@,
        attributes: Seq::empty(),
        styles: Seq::empty(),
        text: Some(label),
        listeners: seq![("click"@, Handler::Navigate(route))],
        children: Seq::empty(),
    }
}

/// The navigation menu: one entry for each route.
pub open spec fn render_nav_view() -> ElementView {
    ElementView {
        tag: "nav"@,
        attributes: seq![("class"@, "main-nav"@)],
        styles: Seq::empty(),
        text: None,
        listeners: Seq::empty(),
        children: seq![
            ElementView {
                tag: "ul"@,
                attributes: Seq::empty(),
                styles: Seq::empty(),
                text: None,
                listeners: Seq::empty(),
                children: seq![
                    nav_item_view("Home"@, Route::Home),
                    nav_item_view("Articles"@, Route::Articles),
                    nav_item_view("About"@, Route::About),
                    nav_item_view("Not Found"@, Route::NotFound),
                ],
            },
        ],
    }
}

/// An entry of the navigation menu.
fn nav_item(label: &'static str, route: Route) -> (element: Element)
    ensures
        element@ == nav_item_view(label@, route),
{
    let items = vec![on("click", Handler::Navigate(route)), text(label)];
    proof {
        lemma_vocabulary();
        let e0 = ElementView::empty("li"@);
        let e1 = e0.add_listener("click"@, Handler::Navigate(route));
        let e2 = e1.set_text(label@);
        lemma_build("li"@, directives_view(items@), seq![e0, e1, e2]);
        assert(e2.listeners =~= nav_item_view(label@, route).listeners);
    }
    build("li", items).unwrap()
}

/// The navigation menu.
pub fn render_nav() -> (element: Element)
    ensures
        element@ == render_nav_view(),
{
    let entries = vec![
        child_expr(nav_item("Home", Route::Home)),
        child_expr(nav_item("Articles", Route::Articles)),
        child_expr(nav_item("About", Route::About)),
        child_expr(nav_item("Not Found", Route::NotFound)),
    ];
    let ghost entry_items = directives_view(entries@);
    let items = vec![attr("class", "main-nav"), child("ul", entries)];
    proof {
        lemma_vocabulary();
        let u0 = ElementView::empty("ul"@);
        let u1 = u0.append_child(nav_item_view("Home"@, Route::Home));
        let u2 = u1.append_child(nav_item_view("Articles"@, Route::Articles));
        let u3 = u2.append_child(nav_item_view("About"@, Route::About));
        let u4 = u3.append_child(nav_item_view("Not Found"@, Route::NotFound));
        lemma_build("ul"@, entry_items, seq![u0, u1, u2, u3, u4]);
        assert(u4.children =~= render_nav_view().children[0].children);
        let e0 = ElementView::empty("nav"@);
        let e1 = e0.set_attribute("class"@, "main-nav"@);
        let e2 = e1.append_child(u4);
        lemma_build("nav"@, directives_view(items@), seq![e0, e1, e2]);
        assert(e2.attributes =~= render_nav_view().attributes);
        assert(e2.children =~= render_nav_view().children);
    }
    build("nav", items).unwrap()
}

/// An element that holds a text and nothing else but, where `class_name`
/// is given, its class.
pub open spec fn text_element_view(
    tag: Seq<char>,
    class_name: Option<Seq<char>>,
    content: Seq<char>,
) -> ElementView {
    ElementView {
        tag,
        attributes: match class_name {
            Some(name) => seq![("class"@, name)],
            None => Seq::empty(),
        },
        styles: Seq::empty(),
        text: Some(content),
        listeners: Seq::empty(),
        children: Seq::empty(),
    }
}

/// The tags of an article, one element for each.
pub open spec fn tags_view(tags: Seq<Seq<char>>) -> Seq<ElementView> {
    Seq::new(tags.len(), |i: int| text_element_view("span"@, Some("tag"@), tags[i]))
}

/// The card of an article: its title, its date and author, its tags and
/// its content.
pub open spec fn article_card_view(article: ArticleView) -> ElementView {
    ElementView {
        tag: "div"@,
        attributes: seq![("class"@, "article-card"@)],
        styles: Seq::empty(),
        text: None,
        listeners: Seq::empty(),
        children: seq![
            text_element_view("h2"@, None, article.title),
            ElementView {
                tag: "div"@,
                attributes: seq![("class"@, "article-meta"@)],
                styles: Seq::empty(),
                text: None,
                listeners: Seq::empty(),
                children: seq![
                    text_element_view("span"@, None, article.date),
                    text_element_view("span"@, None, article.author),
                ],
            },
            ElementView {
                tag: "div"@,
                attributes: seq![("class"@, "article-tags"@)],
                styles: Seq::empty(),
                text: None,
                listeners: Seq::empty(),
                children: tags_view(article.tags),
            },
            text_element_view("p"@, None, article.content),
        ],
    }
}

/// The cards of a list of articles, one for each, in the order of the list.
pub open spec fn article_cards_view(articles: Seq<ArticleView>) -> Seq<ElementView> {
    Seq::new(articles.len(), |i: int| article_card_view(articles[i]))
}

/// The articles page: one card for each article of the content.
pub open spec fn render_articles_view(content: ContentView) -> ElementView {
    ElementView {
        tag: "section"@,
        attributes: seq![("id"@, "articles"@), ("class"@, "articles-section"@)],
        styles: Seq::empty(),
        text: None,
        listeners: Seq::empty(),
        children: article_cards_view(content.articles),
    }
}

/// An element of one of the tags `h1`, `h2`, `p` and `span` that holds a
/// text and, where `class_name` is given, its class.
fn text_element(tag: &'static str, class_name: Option<&'static str>, content: &str) -> (element:
    Element)
    requires
        tag@ == "h1"@ || tag@ == "h2"@ || tag@ == "p"@ || tag@ == "span"@,
    ensures
        element@ == text_element_view(
            tag@,
            match class_name {
                Some(name) => Some(name@),
                None => None,
            },
            content@,
        ),
{
    let mut items: Vec<crate::rsx::Directive> = Vec::new();
    match class_name {
        Some(name) => {
            items.push(attr("class", name));
        },
        None => {},
    }
    items.push(dynamic_text(content));
    proof {
        lemma_vocabulary();
        let e0 = ElementView::empty(tag@);
        match class_name {
            Some(name) => {
                let e1 = e0.set_attribute("class"@, name@);
                let e2 = e1.set_text(content@);
                lemma_build(tag@, directives_view(items@), seq![e0, e1, e2]);
                assert(e2.attributes =~= seq![("class"@, name@)]);
            },
            None => {
                let e1 = e0.set_text(content@);
                lemma_build(tag@, directives_view(items@), seq![e0, e1]);
            },
        }
    }
    build(tag, items).unwrap()
}

/// The card of an article.
fn article_card(article: &Article) -> (element: Element)
    ensures
        element@ == article_card_view(article@),
{
    let mut tags: Vec<Element> = Vec::new();
    let mut i: usize = 0;
    while i < article.tags.len()
        invariant
            i <= article.tags.len(),
            tags@.len() == i,
            forall|j: int|
                0 <= j < i ==> (#[trigger] tags@[j])@ == text_element_view(
                    "span"@,
                    Some("tag"@),
                    article.tags@[j]@,
                ),
        decreases article.tags.len() - i,
    {
        tags.push(text_element("span", Some("tag"), article.tags[i].as_str()));
        i += 1;
    }
    let ghost tag_views = elements_view(tags@);
    let meta = vec![
        attr("class", "article-meta"),
        child_expr(text_element("span", None, article.date.as_str())),
        child_expr(text_element("span", None, article.author.as_str())),
    ];
    let tag_list = vec![attr("class", "article-tags"), iter_expr(tags)];
    let ghost meta_items = directives_view(meta@);
    let ghost tag_items = directives_view(tag_list@);
    let items = vec![
        attr("class", "article-card"),
        child_expr(text_element("h2", None, article.title.as_str())),
        child("div", meta),
        child("div", tag_list),
        child_expr(text_element("p", None, article.content.as_str())),
    ];
    proof {
        lemma_vocabulary();
        let card = article_card_view(article@);
        assert(tag_views =~= tags_view(article@.tags));
        let m0 = ElementView::empty("div"@);
        let m1 = m0.set_attribute("class"@, "article-meta"@);
        let m2 = m1.append_child(text_element_view("span"@, None, article@.date));
        let m3 = m2.append_child(text_element_view("span"@, None, article@.author));
        lemma_build("div"@, meta_items, seq![m0, m1, m2, m3]);
        assert(m3.attributes =~= card.children[1].attributes);
        assert(m3.children =~= card.children[1].children);
        let t0 = ElementView::empty("div"@);
        let t1 = t0.set_attribute("class"@, "article-tags"@);
        let t2 = t1.append_children(tag_views);
        lemma_build("div"@, tag_items, seq![t0, t1, t2]);
        assert(t2.attributes =~= card.children[2].attributes);
        assert(t2.children =~= card.children[2].children);
        let e0 = ElementView::empty("div"@);
        let e1 = e0.set_attribute("class"@, "article-card"@);
        let e2 = e1.append_child(text_element_view("h2"@, None, article@.title));
        let e3 = e2.append_child(m3);
        let e4 = e3.append_child(t2);
        let e5 = e4.append_child(text_element_view("p"@, None, article@.content));
        lemma_build("div"@, directives_view(items@), seq![e0, e1, e2, e3, e4, e5]);
        assert(e5.attributes =~= card.attributes);
        assert(e5.children =~= card.children);
    }
    build("div", items).unwrap()
}

/// The articles page of the content.
pub fn render_articles(content: &Content) -> (element: Element)
    ensures
        element@ == render_articles_view(content@),
{
    let mut cards: Vec<Element> = Vec::new();
    let mut i: usize = 0;
    while i < content.articles.len()
        invariant
            i <= content.articles.len(),
            cards@.len() == i,
            forall|j: int|
                0 <= j < i ==> (#[trigger] cards@[j])@ == article_card_view(content.articles@[j]@),
        decreases content.articles.len() - i,
    {
        cards.push(article_card(&content.articles[i]));
        i += 1;
    }
    let ghost card_views = elements_view(cards@);
    let items = vec![attr("id", "articles"), attr("class", "articles-section"), iter_expr(cards)];
    proof {
        lemma_vocabulary();
        assert(card_views =~= article_cards_view(content@.articles));
        let e0 = ElementView::empty("section"@);
        let e1 = e0.set_attribute("id"@, "articles"@);
        let e2 = e1.set_attribute("class"@, "articles-section"@);
        let e3 = e2.append_children(card_views);
        lemma_build("section"@, directives_view(items@), seq![e0, e1, e2, e3]);
        reveal_with_fuel(crate::dom::assign, 3);
        assert(e3.attributes =~= render_articles_view(content@).attributes);
        assert(e3.children =~= render_articles_view(content@).children);
    }
    build("section", items).unwrap()
}

/// The home page: the label of the counter, the counter, which shows 0
/// until the page is rendered, and the container of the todo list.
pub open spec fn home_view(todos: Seq<TodoView>) -> ElementView {
    ElementView {
        tag: "div"@,
        attributes: seq![("id"@, "content"@)],
        styles: Seq::empty(),
        text: Some("Counter: "@),
        listeners: Seq::empty(),
        children: seq![
            ElementView {
                tag: "span"@,
                attributes: seq![("id"@, "count"@), ("class"@, "counter"@)],
                styles: Seq::empty(),
                text: Some("0"@),
                listeners: Seq::empty(),
                children: Seq::empty(),
            },
            ElementView {
                tag: "div"@,
                attributes: seq![("id"@, "todo-container"@)],
                styles: Seq::empty(),
                text: None,
                listeners: Seq::empty(),
                children: seq![todo_list_view(todos)],
            },
        ],
    }
}

/// A page that holds a heading and a paragraph.
pub open spec fn notice_view(class_name: Seq<char>, heading: Seq<char>, body: Seq<char>) -> ElementView {
    ElementView {
        tag: "div"@,
        attributes: seq![("class"@, class_name)],
        styles: Seq::empty(),
        text: None,
        listeners: Seq::empty(),
        children: seq![
            text_element_view("h1"@, None, heading),
            text_element_view("p"@, None, body),
        ],
    }
}

/// The content block of a route.
pub open spec fn render_route_content_view(
    route: Route,
    todos: Seq<TodoView>,
    content: ContentView,
) -> ElementView {
    match route {
        Route::Home => home_view(todos),
        Route::Articles => render_articles_view(content),
        Route::About => notice_view(
            "about-page"@,
            "About Us"@,
            "This is the about page content."@,
        ),
        Route::NotFound => notice_view(
            "not-found"@,
            "404 - Page Not Found"@,
            "The page you're looking for doesn't exist."@,
        ),
    }
}

/// What the root element holds: the navigation menu, the content block of
/// the route, and the buttons for the visibility, the counter and the
/// theme.
pub open spec fn page_view(route: Route, todos: Seq<TodoView>, content: ContentView) -> Seq<
    ElementView,
> {
    seq![
        render_nav_view(),
        render_route_content_view(route, todos, content),
        toggle_visibility_view(),
        counter_actions_view(),
        toggle_theme_button_view(),
    ]
}

/// The root element of the application as it is first put on the page: it
/// shows the theme of the provider.
pub open spec fn mount_view(state: AppStateView, route: Route, content: ContentView) -> ElementView {
    ElementView {
        tag: "div"@,
        attributes: seq![
            ("id"@, "app"@),
            ("class"@, ThemeProvider::root_class(state.theme_provider)),
        ],
        styles: Seq::empty(),
        text: None,
        listeners: Seq::empty(),
        children: page_view(route, state.todos, content),
    }
}

/// The value of the display style for a visibility.
pub open spec fn display_value(visibility: Visibility) -> Seq<char> {
    match visibility {
        Visibility::Shown => "block"@,
        Visibility::Hidden => "none"@,
    }
}

/// The writes of a render pass, in their order: the decimal string of the
/// counter as the text of the counter element, the class of the theme as
/// the class of the root element, the display style of the content element,
/// and a todo list built anew as the only content of the todo container.
pub open spec fn render_spec(state: AppStateView) -> Seq<PatchView> {
    seq![
        PatchView::SetText { id: "count"@, text: decimal(state.counter) },
        PatchView::SetClass { id: "app"@, class_name: state.theme.class_name() },
        PatchView::SetStyle {
            id: "content"@,
            property: "display"@,
            value: display_value(state.visibility),
        },
        PatchView::ReplaceContent {
            id: "todo-container"@,
            children: seq![todo_list_view(state.todos)],
        },
    ]
}

/// The home page.
fn home(state: &AppState) -> (element: Element)
    ensures
        element@ == home_view(state@.todos),
{
    let count = vec![attr("id", "count"), attr("class", "counter"), text("0")];
    let container = vec![attr("id", "todo-container"), child_expr(todo_list(&state.todos))];
    let ghost count_items = directives_view(count@);
    let ghost container_items = directives_view(container@);
    let items = vec![
        attr("id", "content"),
        text("Counter: "),
        child("span", count),
        child("div", container),
    ];
    proof {
        lemma_vocabulary();
        reveal_with_fuel(crate::dom::assign, 3);
        let page = home_view(state@.todos);
        let c0 = ElementView::empty("span"@);
        let c1 = c0.set_attribute("id"@, "count"@);
        let c2 = c1.set_attribute("class"@, "counter"@);
        let c3 = c2.set_text("0"@);
        lemma_build("span"@, count_items, seq![c0, c1, c2, c3]);
        assert(c3.attributes =~= page.children[0].attributes);
        let t0 = ElementView::empty("div"@);
        let t1 = t0.set_attribute("id"@, "todo-container"@);
        let t2 = t1.append_child(todo_list_view(state@.todos));
        lemma_build("div"@, container_items, seq![t0, t1, t2]);
        assert(t2.attributes =~= page.children[1].attributes);
        assert(t2.children =~= page.children[1].children);
        let e0 = ElementView::empty("div"@);
        let e1 = e0.set_attribute("id"@, "content"@);
        let e2 = e1.set_text("Counter: "@);
        let e3 = e2.append_child(c3);
        let e4 = e3.append_child(t2);
        lemma_build("div"@, directives_view(items@), seq![e0, e1, e2, e3, e4]);
        assert(e4.attributes =~= page.attributes);
        assert(e4.children =~= page.children);
    }
    build("div", items).unwrap()
}

/// A page that holds a heading and a paragraph.
fn notice(class_name: &'static str, heading: &'static str, body: &'static str) -> (element: Element)
    ensures
        element@ == notice_view(class_name@, heading@, body@),
{
    let items = vec![
        attr("class", class_name),
        child_expr(text_element("h1", None, heading)),
        child_expr(text_element("p", None, body)),
    ];
    proof {
        lemma_vocabulary();
        let e0 = ElementView::empty("div"@);
        let e1 = e0.set_attribute("class"@, class_name@);
        let e2 = e1.append_child(text_element_view("h1"@, None, heading@));
        let e3 = e2.append_child(text_element_view("p"@, None, body@));
        lemma_build("div"@, directives_view(items@), seq![e0, e1, e2, e3]);
        assert(e3.attributes =~= notice_view(class_name@, heading@, body@).attributes);
        assert(e3.children =~= notice_view(class_name@, heading@, body@).children);
    }
    build("div", items).unwrap()
}

/// The content block of a route. The home page shows the todos of the
/// state, the articles page the articles of the content.
pub fn render_route_content(route: &Route, state: &AppState, content: &Content) -> (element:
    Element)
    ensures
        element@ == render_route_content_view(*route, state@.todos, content@),
{
    match route {
        Route::Home => home(state),
        Route::Articles => render_articles(content),
        Route::About => notice("about-page", "About Us", "This is the about page content."),
        Route::NotFound => notice(
            "not-found",
            "404 - Page Not Found",
            "The page you're looking for doesn't exist.",
        ),
    }
}

/// What the root element holds for a route.
pub fn render_page(route: &Route, state: &AppState, content: &Content) -> (children: Vec<Element>)
    ensures
        elements_view(children@) == page_view(*route, state@.todos, content@),
{
    let children = vec![
        render_nav(),
        render_route_content(route, state, content),
        toggle_visibility(),
        counter_actions(),
        toggle_theme_button(),
    ];
    assert(elements_view(children@) =~= page_view(*route, state@.todos, content@));
    children
}

/// Builds the root element of the application for the state and the route,
/// and shows the theme of the provider on it.
pub fn mount(state: &AppState, route: &Route, content: &Content) -> (element: Element)
    ensures
        element@ == mount_view(state@, *route, content@),
{
    let mut class_name = owned("app-container ");
    class_name.append(state.theme.to_str());
    let children = render_page(route, state, content);
    let ghost child_views = elements_view(children@);
    let items = vec![attr("id", "app"), attr("class", class_name.as_str()), iter_expr(children)];
    proof {
        lemma_vocabulary();
        reveal_with_fuel(crate::dom::assign, 3);
        let e0 = ElementView::empty("div"@);
        let e1 = e0.set_attribute("id"@, "app"@);
        let e2 = e1.set_attribute("class"@, class_name@);
        let e3 = e2.append_children(child_views);
        lemma_build("div"@, directives_view(items@), seq![e0, e1, e2, e3]);
        let shown = e3.set_attribute("class"@, ThemeProvider::root_class(state@.theme_provider));
        assert(shown.attributes =~= mount_view(state@, *route, content@).attributes);
        assert(shown.children =~= mount_view(state@, *route, content@).children);
    }
    let mut app = build("div", items).unwrap();
    state.theme_provider.apply_theme_to_element(&mut app);
    app
}

/// Derives the visible regions of the page from the state: the writes that
/// bring the counter, the theme, the visibility and the todo list in line
/// with it. The state is only read. Each write is addressed to its region
/// by identifier, and a region that is missing on the page is skipped.
pub fn render(state: &AppState) -> (patches: Vec<Patch>)
    ensures
        crate::dom::patches_view(patches@) == render_spec(state@),
{
    let display = match state.visibility {
        Visibility::Shown => "block",
        Visibility::Hidden => "none",
    };
    let rows = vec![todo_list(&state.todos)];
    assert(elements_view(rows@) =~= seq![todo_list_view(state@.todos)]);
    let patches = vec![
        Patch::SetText { id: owned("count"), text: format_i32(state.counter) },
        Patch::SetClass { id: owned("app"), class_name: owned(state.theme.to_str()) },
        Patch::SetStyle { id: owned("content"), property: owned("display"), value: owned(display) },
        Patch::ReplaceContent { id: owned("todo-container"), children: rows },
    ];
    assert(crate::dom::patches_view(patches@) =~= render_spec(state@));
    patches
}

} // verus!

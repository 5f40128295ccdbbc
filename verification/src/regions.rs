//! Laws of the render pass on the regions of a page.

use vstd::prelude::*;
use crate::components::counter::{counter_actions_view, counter_button_view};
use crate::components::lemma_vocabulary;
use crate::components::todo::{
    add_button_view, todo_checkbox_view, todo_delete_view, todo_field_view, todo_input_view,
    todo_item_view, todo_list_view, todo_rows_view, todo_text_view,
};
use crate::components::toggle_theme::toggle_theme_button_view;
use crate::components::visibility::toggle_visibility_view;
use crate::content_loader::{ArticleView, ContentView};
use crate::dom::{find_in, lemma_find_in_absent, ElementView, PatchView};
use crate::page::{
    apart, lemma_listeners_among_each, listeners_among, listeners_in, lemma_absent_apart, lemma_apart_kept, lemma_apart_replaced, lemma_apply_over,
    lemma_apply_twice, lemma_commute_kept, lemma_commute_replace, lemma_without_ids,
    without_ids,
};
use crate::render::{
    article_card_view, mount_view, notice_view, page_view, render_nav_view,
    render_route_content_view, render_spec, text_element_view,
};
use crate::router::{navigation_patches, Route};
use crate::state::actions::Action;
use crate::state::app_state::{AppStateView, TodoView};
use crate::state::{dispatch_spec, effect_spec, reduce_spec};

verus! {

/// A todo list holds no element with an identifier other than those of the
/// list itself and of its input field.
pub proof fn lemma_todo_list_ids(todos: Seq<TodoView>, id: Seq<char>)
    requires
        id != "todo-list"@,
        id != "todo-input"@,
    ensures
        todo_list_view(todos).find(id) is None,
{
    lemma_vocabulary();
    reveal_with_fuel(crate::dom::lookup, 5);
    reveal_with_fuel(find_in, 4);
    let rows = todo_rows_view(todos);
    assert forall|j: int| 0 <= j < rows.len() implies (#[trigger] rows[j]).find(id) is None by {
        let row = todo_item_view(j as usize, todos[j]);
        assert(todo_checkbox_view(j as usize, todos[j].completed).find(id) is None);
        assert(todo_text_view(todos[j].text).find(id) is None);
        assert(todo_delete_view(j as usize).find(id) is None);
        assert(find_in(row.children, id) is None);
        assert(row.find(id) is None);
    }
    lemma_find_in_absent(rows, id);
    let list = todo_list_view(todos);
    assert(list.children[1].find(id) is None);
    assert(todo_field_view().find(id) is None);
    assert(add_button_view().find(id) is None);
    assert(find_in(todo_input_view().children, id) is None);
    assert(todo_input_view().find(id) is None);
    assert(find_in(list.children, id) is None);
}

/// Whether the regions of a page that a render pass writes to are apart:
/// no todo container holds the counter element, the root element or the
/// content element among its descendants, so that building the todo list
/// anew cannot take another region off the page.
pub open spec fn regions_apart(page: ElementView) -> bool {
    &&& apart(page, "count"@, "todo-container"@)
    &&& apart(page, "app"@, "todo-container"@)
    &&& apart(page, "content"@, "todo-container"@)
}

/// On a rendered page every write of the render pass is in place: writing
/// it once more changes nothing. This holds on every page whose regions are
/// apart.
pub proof fn lemma_render_settled(page: ElementView, state: AppStateView)
    requires
        regions_apart(page),
    ensures
        forall|i: int|
            0 <= i < 4 ==> page.apply_all(render_spec(state)).apply(
                #[trigger] render_spec(state)[i],
            ) == page.apply_all(render_spec(state)),
{
    lemma_region_ids();
    let writes = render_spec(state);
    let text = writes[0];
    let class = writes[1];
    let style = writes[2];
    let todos = writes[3];
    let list = seq![todo_list_view(state.todos)];
    lemma_todo_list_ids(state.todos, "count"@);
    lemma_todo_list_ids(state.todos, "app"@);
    lemma_todo_list_ids(state.todos, "content"@);
    reveal_with_fuel(find_in, 2);
    assert(find_in(list, "count"@) is None);
    assert(find_in(list, "app"@) is None);
    assert(find_in(list, "content"@) is None);
    let p1 = page.apply(text);
    let p2 = p1.apply(class);
    let p3 = p2.apply(style);
    let p4 = p3.apply(todos);
    lemma_apply_all_four(page, writes);
    // The regions stay apart while the first three writes are applied.
    lemma_apart_kept(page, text, "count"@, "todo-container"@);
    lemma_apart_kept(p1, class, "count"@, "todo-container"@);
    lemma_apart_kept(p2, style, "count"@, "todo-container"@);
    lemma_apart_kept(page, text, "app"@, "todo-container"@);
    lemma_apart_kept(p1, class, "app"@, "todo-container"@);
    lemma_apart_kept(p2, style, "app"@, "todo-container"@);
    lemma_apart_kept(page, text, "content"@, "todo-container"@);
    lemma_apart_kept(p1, class, "content"@, "todo-container"@);
    lemma_apart_kept(p2, style, "content"@, "todo-container"@);
    // The text of the counter is in place on the rendered page.
    assert(p4.apply(text) == p4) by {
        lemma_commute_replace(p3, text, todos);
        lemma_commute_kept(p2, text, style);
        lemma_commute_kept(p1, text, class);
        lemma_apply_twice(page, text);
    }
    // So is the class of the root element.
    assert(p4.apply(class) == p4) by {
        lemma_commute_replace(p3, class, todos);
        lemma_commute_kept(p2, class, style);
        lemma_apply_twice(p1, class);
    }
    // So is the display style of the content element.
    assert(p4.apply(style) == p4) by {
        lemma_commute_replace(p3, style, todos);
        lemma_apply_twice(p2, style);
    }
    // So is the todo list.
    assert(p4.apply(todos) == p4) by {
        lemma_apply_twice(p3, todos);
    }
    assert forall|i: int| 0 <= i < 4 implies p4.apply(#[trigger] writes[i]) == p4 by {
        if i == 0 {
        } else if i == 1 {
        } else if i == 2 {
        } else {
        }
    }
}

/// What the regions of a rendered page show, each where the page has it:
/// the counter element has the decimal string of the counter as its text,
/// the root element the class of the theme as its class, the content
/// element the display style of the visibility, and the todo container no
/// text and the todo list of the todos as its only child. This holds on
/// every page whose regions are apart.
pub proof fn lemma_render_shows(page: ElementView, state: AppStateView)
    requires
        regions_apart(page),
    ensures
        ({
            let rendered = page.apply_all(render_spec(state));
            &&& rendered.find("count"@) matches Some(counter) ==> counter.text == Some(
                crate::utils::decimal(state.counter),
            )
            &&& rendered.find("app"@) matches Some(root) ==> root.attribute("class"@) == Some(
                state.theme.class_name(),
            )
            &&& rendered.find("content"@) matches Some(block) ==> block.style("display"@)
                == Some(crate::render::display_value(state.visibility))
            &&& rendered.find("todo-container"@) matches Some(container) ==> container.text
                is None && container.children == seq![todo_list_view(state.todos)]
        }),
{
    let writes = render_spec(state);
    let rendered = page.apply_all(writes);
    lemma_render_settled(page, state);
    assert(rendered.apply(writes[0]) == rendered);
    assert(rendered.apply(writes[1]) == rendered);
    assert(rendered.apply(writes[2]) == rendered);
    assert(rendered.apply(writes[3]) == rendered);
    if rendered.find("count"@) is Some {
        crate::page::lemma_find_after_apply(rendered, writes[0]);
    }
    if rendered.find("app"@) is Some {
        let root = rendered.find("app"@)->0;
        crate::page::lemma_find_after_apply(rendered, writes[1]);
        crate::dom::lemma_lookup_assign(
            root.attributes,
            "class"@,
            state.theme.class_name(),
            "class"@,
        );
    }
    if rendered.find("content"@) is Some {
        let block = rendered.find("content"@)->0;
        crate::page::lemma_find_after_apply(rendered, writes[2]);
        crate::dom::lemma_lookup_assign(
            block.styles,
            "display"@,
            crate::render::display_value(state.visibility),
            "display"@,
        );
    }
    if rendered.find("todo-container"@) is Some {
        let container = rendered.find("todo-container"@)->0;
        crate::page::lemma_find_after_apply(rendered, writes[3]);
        assert(writes[3].write(container).children =~= seq![todo_list_view(state.todos)]);
    }
}

/// The listeners of a todo list are those of its input box, two, and those
/// of its rows, two for each todo.
pub proof fn lemma_todo_list_listeners(todos: Seq<TodoView>)
    ensures
        listeners_in(todo_list_view(todos)) == 2 + 2 * todos.len(),
{
    reveal_with_fuel(listeners_among, 4);
    let rows = todo_rows_view(todos);
    assert forall|i: int| 0 <= i < rows.len() implies listeners_in(#[trigger] rows[i]) == 2 by {
        let row = todo_item_view(i as usize, todos[i]);
        assert(listeners_in(todo_checkbox_view(i as usize, todos[i].completed)) == 1);
        assert(listeners_in(todo_text_view(todos[i].text)) == 0);
        assert(listeners_in(todo_delete_view(i as usize)) == 1);
        assert(listeners_among(row.children) == 2);
    }
    lemma_listeners_among_each(rows, 2);
    let list = todo_list_view(todos);
    assert(listeners_in(list.children[1]) == 2 * todos.len());
    assert(listeners_in(todo_field_view()) == 1);
    assert(listeners_in(add_button_view()) == 1);
    assert(listeners_among(todo_input_view().children) == 2);
    assert(listeners_in(todo_input_view()) == 2);
    assert(listeners_among(list.children) == 2 + 2 * todos.len());
}

/// However often a page is rendered, and whatever was rendered before, the
/// todo container of a rendered page holds the listeners of the todo list
/// of the state and no others: rebuilding the list leaves no listener of an
/// earlier list behind. This holds on every page whose regions are apart.
pub proof fn lemma_render_listeners(page: ElementView, state: AppStateView)
    requires
        regions_apart(page),
    ensures
        page.apply_all(render_spec(state)).find("todo-container"@) matches Some(container)
            ==> listeners_among(container.children) == 2 + 2 * state.todos.len(),
{
    lemma_render_shows(page, state);
    lemma_todo_list_listeners(state.todos);
    reveal_with_fuel(listeners_among, 2);
}

/// Rendering a state twice in a row leaves the page as rendering it once
/// does, on every page whose regions are apart.
pub proof fn lemma_render_idempotent(page: ElementView, state: AppStateView)
    requires
        regions_apart(page),
    ensures
        page.apply_all(render_spec(state)).apply_all(render_spec(state)) == page.apply_all(
            render_spec(state),
        ),
{
    let writes = render_spec(state);
    let rendered = page.apply_all(writes);
    lemma_render_settled(page, state);
    lemma_apply_all_four(rendered, writes);
    assert(rendered.apply(writes[0]) == rendered);
    assert(rendered.apply(writes[1]) == rendered);
    assert(rendered.apply(writes[2]) == rendered);
    assert(rendered.apply(writes[3]) == rendered);
}

/// Toggling the theme twice on a page that shows the state leaves the page
/// as it was, the class of the root element included. This holds on every
/// page whose regions are apart.
pub proof fn lemma_toggle_theme_twice_on_page(page: ElementView, state: AppStateView)
    requires
        regions_apart(page),
        page == page.apply_all(render_spec(state)),
    ensures
        page.apply_all(dispatch_spec(state, Action::ToggleTheme)).apply_all(
            dispatch_spec(reduce_spec(state, Action::ToggleTheme), Action::ToggleTheme),
        ) == page,
{
    lemma_region_ids();
    let toggled = reduce_spec(state, Action::ToggleTheme);
    let first = dispatch_spec(state, Action::ToggleTheme);
    let second = dispatch_spec(toggled, Action::ToggleTheme);
    let text = render_spec(state)[0];
    let class = render_spec(state)[1];
    let style = render_spec(state)[2];
    let todos = render_spec(state)[3];
    let dark = render_spec(toggled)[1];
    let shown_first = first[0];
    let shown_second = second[0];
    assert(first =~= seq![shown_first, text, dark, style, todos]);
    assert(second =~= seq![shown_second, text, class, style, todos]);
    lemma_render_settled(page, state);
    assert(page.apply(text) == page);
    assert(page.apply(class) == page);
    assert(page.apply(style) == page);
    assert(page.apply(todos) == page);
    let list = seq![todo_list_view(state.todos)];
    lemma_todo_list_ids(state.todos, "app"@);
    reveal_with_fuel(find_in, 2);
    assert(find_in(list, "app"@) is None);
    // The first toggle leaves the page with the class of the other theme
    // and changes nothing else.
    let a1 = page.apply(shown_first);
    let a2 = a1.apply(text);
    let a3 = a2.apply(dark);
    let a4 = a3.apply(style);
    let a5 = a4.apply(todos);
    lemma_apply_all_five(page, first);
    assert(a2 == a1) by {
        lemma_commute_kept(page, shown_first, text);
    }
    assert(a3 == page.apply(dark)) by {
        lemma_apply_over(page, shown_first, dark);
    }
    assert(a4 == a3) by {
        lemma_commute_kept(page, dark, style);
    }
    assert(a5 == a4) by {
        lemma_commute_replace(page, dark, todos);
    }
    // The second toggle puts the class of the first theme back.
    let b1 = a5.apply(shown_second);
    let b2 = b1.apply(text);
    let b3 = b2.apply(class);
    let b4 = b3.apply(style);
    let b5 = b4.apply(todos);
    lemma_apply_all_five(a5, second);
    assert(b1 == page.apply(shown_second)) by {
        lemma_apply_over(page, dark, shown_second);
    }
    assert(b2 == b1) by {
        lemma_commute_kept(page, shown_second, text);
    }
    assert(b3 == page) by {
        lemma_apply_over(page, shown_second, class);
    }
}

/// Five patches are applied one after the other.
proof fn lemma_apply_all_five(page: ElementView, patches: Seq<PatchView>)
    requires
        patches.len() == 5,
    ensures
        page.apply_all(patches) == page.apply(patches[0]).apply(patches[1]).apply(
            patches[2],
        ).apply(patches[3]).apply(patches[4]),
{
    let four = patches.drop_last();
    lemma_apply_all_four(page, four);
}

/// The identifiers of the regions and of the todo list differ in length.
proof fn lemma_region_ids()
    ensures
        "app"@.len() == 3,
        "count"@.len() == 5,
        "content"@.len() == 7,
        "todo-container"@.len() == 14,
        "todo-list"@.len() == 9,
        "todo-input"@.len() == 10,
{
    reveal_strlit("app");
    reveal_strlit("count");
    reveal_strlit("content");
    reveal_strlit("todo-container");
    reveal_strlit("todo-list");
    reveal_strlit("todo-input");
}

/// Four patches are applied one after the other.
proof fn lemma_apply_all_four(page: ElementView, patches: Seq<PatchView>)
    requires
        patches.len() == 4,
    ensures
        page.apply_all(patches) == page.apply(patches[0]).apply(patches[1]).apply(
            patches[2],
        ).apply(patches[3]),
{
    let three = patches.drop_last();
    let two = three.drop_last();
    let one = two.drop_last();
    assert(one.drop_last().len() == 0);
    assert(page.apply_all(one.drop_last()) == page);
    assert(page.apply_all(one) == page.apply(patches[0]));
    assert(page.apply_all(two) == page.apply(patches[0]).apply(patches[1]));
    assert(page.apply_all(three) == page.apply(patches[0]).apply(patches[1]).apply(patches[2]));
}

/// The navigation menu and the buttons of the page carry no identifiers.
pub proof fn lemma_chrome_without_ids()
    ensures
        without_ids(render_nav_view()),
        without_ids(toggle_visibility_view()),
        without_ids(counter_actions_view()),
        without_ids(toggle_theme_button_view()),
{
    lemma_vocabulary();
    reveal_with_fuel(crate::dom::lookup, 3);
    let nav = render_nav_view();
    let list = nav.children[0];
    assert forall|i: int| 0 <= i < list.children.len() implies without_ids(
        #[trigger] list.children[i],
    ) by {
        let entry = list.children[i];
        assert(entry.attributes.len() == 0);
        assert(entry.children.len() == 0);
    }
    assert(without_ids(list));
    assert(without_ids(nav));
    let counter = counter_actions_view();
    assert(without_ids(counter_button_view("+"@, crate::state::actions::Operation::Increment)));
    assert(without_ids(counter_button_view("-"@, crate::state::actions::Operation::Decrement)));
    assert forall|i: int| 0 <= i < counter.children.len() implies without_ids(
        #[trigger] counter.children[i],
    ) by {}
    assert(without_ids(counter));
}

/// An element that holds a text and at most a class carries no identifier.
pub proof fn lemma_text_element_without_ids(
    tag: Seq<char>,
    class_name: Option<Seq<char>>,
    content: Seq<char>,
)
    ensures
        without_ids(text_element_view(tag, class_name, content)),
{
    lemma_vocabulary();
    reveal_with_fuel(crate::dom::lookup, 3);
}

/// The card of an article carries no identifiers.
pub proof fn lemma_article_card_without_ids(article: ArticleView)
    ensures
        without_ids(article_card_view(article)),
{
    lemma_vocabulary();
    reveal_with_fuel(crate::dom::lookup, 3);
    let card = article_card_view(article);
    let meta = card.children[1];
    let tags = card.children[2];
    lemma_text_element_without_ids("h2"@, None, article.title);
    lemma_text_element_without_ids("span"@, None, article.date);
    lemma_text_element_without_ids("span"@, None, article.author);
    lemma_text_element_without_ids("p"@, None, article.content);
    assert forall|i: int| 0 <= i < meta.children.len() implies without_ids(
        #[trigger] meta.children[i],
    ) by {}
    assert(without_ids(meta));
    assert forall|i: int| 0 <= i < tags.children.len() implies without_ids(
        #[trigger] tags.children[i],
    ) by {
        lemma_text_element_without_ids("span"@, Some("tag"@), article.tags[i]);
    }
    assert(without_ids(tags));
    assert forall|i: int| 0 <= i < card.children.len() implies without_ids(
        #[trigger] card.children[i],
    ) by {}
}

/// The content block of every route keeps the regions apart: its only todo
/// container, that of the home page, holds the todo list and nothing else.
pub proof fn lemma_route_content_apart(
    route: Route,
    todos: Seq<TodoView>,
    content: ContentView,
    anchor: Seq<char>,
)
    requires
        anchor != "todo-list"@,
        anchor != "todo-input"@,
    ensures
        apart(render_route_content_view(route, todos, content), anchor, "todo-container"@),
{
    lemma_vocabulary();
    lemma_region_ids();
    reveal_with_fuel(crate::dom::lookup, 3);
    let container = "todo-container"@;
    let block = render_route_content_view(route, todos, content);
    match route {
        Route::Home => {
            let count = block.children[0];
            let holder = block.children[1];
            lemma_todo_list_ids(todos, anchor);
            lemma_todo_list_ids(todos, container);
            lemma_absent_apart(todo_list_view(todos), anchor, container);
            reveal_with_fuel(find_in, 2);
            assert(find_in(holder.children, anchor) is None);
            assert forall|i: int| 0 <= i < holder.children.len() implies apart(
                #[trigger] holder.children[i],
                anchor,
                container,
            ) by {}
            assert(apart(holder, anchor, container));
            assert(count.children.len() == 0);
            assert(apart(count, anchor, container));
            assert forall|i: int| 0 <= i < block.children.len() implies apart(
                #[trigger] block.children[i],
                anchor,
                container,
            ) by {}
        },
        Route::Articles => {
            reveal_strlit("articles");
            assert("articles"@.len() == 8);
            assert forall|i: int| 0 <= i < block.children.len() implies (
            #[trigger] block.children[i]).find(container) is None by {
                lemma_article_card_without_ids(content.articles[i]);
                lemma_without_ids(block.children[i], container);
            }
            lemma_find_in_absent(block.children, container);
            lemma_absent_apart(block, anchor, container);
        },
        Route::About => {
            lemma_notice_without_ids(
                "about-page"@,
                "About Us"@,
                "This is the about page content."@,
            );
            lemma_without_ids(block, container);
            lemma_absent_apart(block, anchor, container);
        },
        Route::NotFound => {
            lemma_notice_without_ids(
                "not-found"@,
                "404 - Page Not Found"@,
                "The page you're looking for doesn't exist."@,
            );
            lemma_without_ids(block, container);
            lemma_absent_apart(block, anchor, container);
        },
    }
}

/// A page that holds a heading and a paragraph carries no identifiers.
pub proof fn lemma_notice_without_ids(class_name: Seq<char>, heading: Seq<char>, body: Seq<char>)
    ensures
        without_ids(notice_view(class_name, heading, body)),
{
    lemma_vocabulary();
    reveal_with_fuel(crate::dom::lookup, 3);
    let notice = notice_view(class_name, heading, body);
    lemma_text_element_without_ids("h1"@, None, heading);
    lemma_text_element_without_ids("p"@, None, body);
    assert forall|i: int| 0 <= i < notice.children.len() implies without_ids(
        #[trigger] notice.children[i],
    ) by {}
}

/// An element that is no todo container and holds the page of a route
/// keeps the regions apart.
pub proof fn lemma_page_apart(
    root: ElementView,
    route: Route,
    todos: Seq<TodoView>,
    content: ContentView,
)
    requires
        root.id() != Some("todo-container"@),
        root.children == page_view(route, todos, content),
    ensures
        regions_apart(root),
{
    lemma_region_ids();
    lemma_chrome_without_ids();
    let container = "todo-container"@;
    lemma_without_ids(render_nav_view(), container);
    lemma_without_ids(toggle_visibility_view(), container);
    lemma_without_ids(counter_actions_view(), container);
    lemma_without_ids(toggle_theme_button_view(), container);
    assert forall|anchor: Seq<char>|
        anchor == "count"@ || anchor == "app"@ || anchor == "content"@ implies apart(
        root,
        anchor,
        container,
    ) by {
        lemma_route_content_apart(route, todos, content, anchor);
        lemma_absent_apart(render_nav_view(), anchor, container);
        lemma_absent_apart(toggle_visibility_view(), anchor, container);
        lemma_absent_apart(counter_actions_view(), anchor, container);
        lemma_absent_apart(toggle_theme_button_view(), anchor, container);
        assert forall|i: int| 0 <= i < root.children.len() implies apart(
            #[trigger] root.children[i],
            anchor,
            container,
        ) by {}
    }
}

/// The root element of the application keeps the regions apart when it is
/// first put on the page.
pub proof fn lemma_mount_apart(state: AppStateView, route: Route, content: ContentView)
    ensures
        regions_apart(mount_view(state, route, content)),
{
    lemma_region_ids();
    lemma_vocabulary();
    reveal_with_fuel(crate::dom::lookup, 3);
    lemma_page_apart(mount_view(state, route, content), route, state.todos, content);
}

/// A render pass keeps the regions of a page apart.
pub proof fn lemma_render_keeps_apart(page: ElementView, state: AppStateView)
    requires
        regions_apart(page),
    ensures
        regions_apart(page.apply_all(render_spec(state))),
{
    lemma_region_ids();
    let container = "todo-container"@;
    let writes = render_spec(state);
    let p1 = page.apply(writes[0]);
    let p2 = p1.apply(writes[1]);
    let p3 = p2.apply(writes[2]);
    lemma_apply_all_four(page, writes);
    let list = seq![todo_list_view(state.todos)];
    lemma_todo_list_ids(state.todos, container);
    reveal_with_fuel(find_in, 2);
    assert forall|anchor: Seq<char>|
        anchor == "count"@ || anchor == "app"@ || anchor == "content"@ implies apart(
        page.apply_all(writes),
        anchor,
        container,
    ) by {
        lemma_apart_kept(page, writes[0], anchor, container);
        lemma_apart_kept(p1, writes[1], anchor, container);
        lemma_apart_kept(p2, writes[2], anchor, container);
        lemma_todo_list_ids(state.todos, anchor);
        lemma_absent_apart(todo_list_view(state.todos), anchor, container);
        assert(find_in(list, anchor) is None);
        assert forall|i: int| 0 <= i < list.len() implies apart(
            #[trigger] list[i],
            anchor,
            container,
        ) by {}
        lemma_apart_replaced(p3, writes[3], anchor, container);
    }
}

/// A dispatch keeps the regions of a page apart.
pub proof fn lemma_dispatch_keeps_apart(page: ElementView, state: AppStateView, action: Action)
    requires
        regions_apart(page),
    ensures
        regions_apart(page.apply_all(dispatch_spec(state, action))),
{
    let next = reduce_spec(state, action);
    let writes = dispatch_spec(state, action);
    match effect_spec(state, action) {
        Some(shown) => {
            let first = page.apply(shown);
            lemma_apart_kept(page, shown, "count"@, "todo-container"@);
            lemma_apart_kept(page, shown, "app"@, "todo-container"@);
            lemma_apart_kept(page, shown, "content"@, "todo-container"@);
            lemma_render_keeps_apart(first, next);
            lemma_apply_all_five(page, writes);
            lemma_apply_all_four(first, render_spec(next));
        },
        None => {
            lemma_render_keeps_apart(page, next);
        },
    }
}

/// Going to a route keeps the regions apart on a page whose root is the
/// root element of the application.
pub proof fn lemma_navigation_keeps_apart(
    page: ElementView,
    state: AppStateView,
    route: Route,
    content: ContentView,
)
    requires
        page.id() == Some("app"@),
    ensures
        regions_apart(page.apply_all(navigation_patches(state, route, content))),
{
    lemma_region_ids();
    let writes = navigation_patches(state, route, content);
    let next = crate::router::navigate_spec(state, route);
    let shown = page.apply(writes[0]);
    assert(shown.children =~= page_view(route, state.todos, content));
    crate::page::lemma_write_keeps_id(page, writes[0]);
    lemma_page_apart(shown, route, state.todos, content);
    lemma_render_keeps_apart(shown, next);
    lemma_apply_all_five(page, writes);
    lemma_apply_all_four(shown, render_spec(next));
}

} // verus!

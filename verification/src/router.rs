//! The routes of the application and the paths under which they are
//! reached.

use vstd::prelude::*;
use crate::content_loader::{Content, ContentView};
use crate::dom::{patches_view, Patch, PatchView};
use crate::render::{page_view, render_page, render_spec};
use crate::state::app_state::{AppState, AppStateView};
use crate::state::{update_state, Store};
use crate::utils::{owned, str_eq};

verus! {

/// The pages of the application.
#[derive(Copy, Clone, Debug, PartialEq, Eq, Structural)]
pub enum Route {
    Home,
    Articles,
    About,
    NotFound,
}

impl Route {
    /// The route that a URL path selects: the root path and the empty path
    /// are the home page, an unknown path is `NotFound`.
    pub open spec fn of_path(path: Seq<char>) -> Route {
        if path == "/"@ || path == ""@ {
            Route::Home
        } else if path == "/articles"@ {
            Route::Articles
        } else if path == "/about"@ {
            Route::About
        } else {
            Route::NotFound
        }
    }

    /// The URL path under which a route is reached.
    pub open spec fn path(self) -> Seq<char> {
        match self {
            Route::Home => "/"@,
            Route::Articles => "/articles"@,
            Route::About => "/about"@,
            Route::NotFound => "/404"@,
        }
    }

    /// The route that a URL path selects.
    pub fn from_path(path: &str) -> (route: Route)
        ensures
            route == Route::of_path(path@),
    {
        if str_eq(path, "/") || str_eq(path, "") {
            Route::Home
        } else if str_eq(path, "/articles") {
            Route::Articles
        } else if str_eq(path, "/about") {
            Route::About
        } else {
            Route::NotFound
        }
    }

    /// The URL path under which the route is reached.
    pub fn to_path(&self) -> (path: &'static str)
        ensures
            path@ == self.path(),
    {
        match self {
            Route::Home => "/",
            Route::Articles => "/articles",
            Route::About => "/about",
            Route::NotFound => "/404",
        }
    }
}

/// What has to reach the browser when the application goes to a route.
#[derive(Debug, PartialEq, Eq)]
pub struct Navigation {
    /// The path to push on the history of the browser.
    pub path: &'static str,
    /// The writes to the page, in their order.
    pub patches: Vec<Patch>,
}

/// The state after the application went to `route`.
pub open spec fn navigate_spec(state: AppStateView, route: Route) -> AppStateView {
    AppStateView { current_route: route, ..state }
}

/// The writes to the page when the application goes to `route`: the root
/// element gets the page of the route as its content, and the new state is
/// rendered.
pub open spec fn navigation_patches(
    state: AppStateView,
    route: Route,
    content: ContentView,
) -> Seq<PatchView> {
    seq![
        PatchView::ReplaceContent {
            id: "app"@,
            children: page_view(route, state.todos, content),
        },
    ] + render_spec(navigate_spec(state, route))
}

/// Goes to `route`: the route becomes the current route of the state, and
/// the page of the route is to be shown under the path of the route. Only
/// the articles page reads `content`.
pub fn navigate_to(store: &mut Store, route: Route, content: &Content) -> (navigation: Navigation)
    ensures
        final(store)@ == navigate_spec(old(store)@, route),
        navigation.path@ == route.path(),
        patches_view(navigation.patches@) == navigation_patches(old(store)@, route, content@),
{
    let updater = move |state: AppState| -> (next: AppState)
        ensures
            next@ == navigate_spec(state@, route),
        {
            let mut state = state;
            state.current_route = route;
            state
        };
    let mut rendered = update_state(store, updater);
    proof {
        store.lemma_view();
    }
    let mut patches = vec![
        Patch::ReplaceContent { id: owned("app"), children: render_page(&route, store.read(), content) },
    ];
    let ghost first = patches_view(patches@);
    let ghost rest = patches_view(rendered@);
    patches.append(&mut rendered);
    assert(patches_view(patches@) =~= first + rest);
    assert(first =~= seq![
        PatchView::ReplaceContent {
            id: "app"@,
            children: page_view(route, old(store)@.todos, content@),
        },
    ]);
    Navigation { path: route.to_path(), patches }
}

impl Route {
    /// Whether the page of the route shows the articles of the content.
    pub fn needs_content(&self) -> (needed: bool)
        ensures
            needed == (*self == Route::Articles),
    {
        match self {
            Route::Articles => true,
            _ => false,
        }
    }
}

/// The route of the page that the browser shows: the route of the
/// location's path, `NotFound` where the location could not be read.
pub fn get_current_route(pathname: Option<&str>) -> (route: Route)
    ensures
        route == match pathname {
            Some(path) => Route::of_path(path@),
            None => Route::NotFound,
        },
{
    match pathname {
        Some(path) => Route::from_path(path),
        None => Route::NotFound,
    }
}

/// Every route but `NotFound` is found again from its own path, and the path
/// of `NotFound` is itself unknown.
pub proof fn lemma_path_round_trip(route: Route)
    ensures
        Route::of_path(route.path()) == route,
{
    reveal_strlit("/");
    reveal_strlit("");
    reveal_strlit("/articles");
    reveal_strlit("/about");
    reveal_strlit("/404");
    // The paths differ in length.
    assert("/"@.len() == 1);
    assert("/articles"@.len() == 9);
    assert("/about"@.len() == 6);
    assert("/404"@.len() == 4);
    assert(""@.len() == 0);
}

} // verus!

//! The button that changes the theme.

use vstd::prelude::*;
use crate::action_handler;
use crate::components::lemma_vocabulary;
use crate::dom::{Element, ElementView, Handler};
use crate::rsx::{attr, build, directives_view, lemma_build, on, text};
use crate::state::actions::Action;

verus! {

/// The button that changes the theme.
pub open spec fn toggle_theme_button_view() -> ElementView {
    ElementView {
        tag: "button"@,
        attributes: seq![("class"@, "btn btn-primary"@)],
        styles: Seq::empty(),
        text: Some("Toggle Theme"@),
        listeners: seq![("click"@, Handler::Dispatch(Action::ToggleTheme))],
        children: Seq::empty(),
    }
}

/// The button that changes the theme.
pub fn toggle_theme_button() -> (element: Element)
    ensures
        element@ == toggle_theme_button_view(),
{
    let handler = action_handler(Action::ToggleTheme);
    let items = vec![attr("class", "btn btn-primary"), text("Toggle Theme"), on("click", handler)];
    proof {
        lemma_vocabulary();
        let e0 = ElementView::empty("button"@);
        let e1 = e0.set_attribute("class"@, "btn btn-primary"@);
        let e2 = e1.set_text("Toggle Theme"@);
        let e3 = e2.add_listener("click"@, handler);
        lemma_build("button"@, directives_view(items@), seq![e0, e1, e2, e3]);
        assert(e3.attributes =~= toggle_theme_button_view().attributes);
        assert(e3.listeners =~= toggle_theme_button_view().listeners);
    }
    build("button", items).unwrap()
}

} // verus!

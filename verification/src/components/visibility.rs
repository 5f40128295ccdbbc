//! The button that shows and hides the content.

use vstd::prelude::*;
use crate::action_handler;
use crate::components::lemma_vocabulary;
use crate::dom::{Element, ElementView, Handler};
use crate::rsx::{attr, build, directives_view, lemma_build, on, text};
use crate::state::actions::Action;

verus! {

/// The button that shows and hides the content.
pub open spec fn toggle_visibility_view() -> ElementView {
    ElementView {
        tag: "button"@,
        attributes: seq![("class"@, "btn btn-primary"@)],
        styles: Seq::empty(),
        text: Some("Toggle Visibility"@),
        listeners: seq![("click"@, Handler::Dispatch(Action::ToggleVisibility))],
        children: Seq::empty(),
    }
}

/// The button that shows and hides the content.
pub fn toggle_visibility() -> (element: Element)
    ensures
        element@ == toggle_visibility_view(),
{
    let handler = action_handler(Action::ToggleVisibility);
    let items = vec![
        attr("class", "btn btn-primary"),
        text("Toggle Visibility"),
        on("click", handler),
    ];
    proof {
        lemma_vocabulary();
        let e0 = ElementView::empty("button"@);
        let e1 = e0.set_attribute("class"@, "btn btn-primary"@);
        let e2 = e1.set_text("Toggle Visibility"@);
        let e3 = e2.add_listener("click"@, handler);
        lemma_build("button"@, directives_view(items@), seq![e0, e1, e2, e3]);
        assert(e3.attributes =~= toggle_visibility_view().attributes);
        assert(e3.listeners =~= toggle_visibility_view().listeners);
    }
    build("button", items).unwrap()
}

} // verus!

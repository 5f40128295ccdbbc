//! The buttons of the counter.

use vstd::prelude::*;
use crate::action_handler;
use crate::components::lemma_vocabulary;
use crate::dom::{Element, ElementView, Handler};
use crate::rsx::{attr, build, child, directives_view, lemma_build, on, text, DirectiveView};
use crate::state::actions::{Action, Operation};

verus! {

/// A button that dispatches one step of the counter.
pub open spec fn counter_button_view(label: Seq<char>, operation: Operation) -> ElementView {
    ElementView {
        tag: "button"@,
        attributes: seq![("class"@, "btn btn-secondary"@)],
        styles: Seq::empty(),
        text: Some(label),
        listeners: seq![("click"@, Handler::Dispatch(Action::Counter(operation)))],
        children: Seq::empty(),
    }
}

/// The two buttons of the counter: the first increments, the second
/// decrements.
pub open spec fn counter_actions_view() -> ElementView {
    ElementView {
        tag: "div"@,
        attributes: seq![("class"@, "counter-actions"@)],
        styles: Seq::empty(),
        text: None,
        listeners: Seq::empty(),
        children: seq![
            counter_button_view("+"@, Operation::Increment),
            counter_button_view("-"@, Operation::Decrement),
        ],
    }
}

/// The template of a counter button builds that button.
proof fn lemma_counter_button(items: Seq<DirectiveView>, label: Seq<char>, operation: Operation)
    requires
        items == seq![
            DirectiveView::Attribute("class"@, "btn btn-secondary"@),
            DirectiveView::LiteralText(label),
            DirectiveView::EventBinding("click"@, Handler::Dispatch(Action::Counter(operation))),
        ],
    ensures
        crate::rsx::build_spec("button"@, items) == Ok::<ElementView, crate::dom::BuildError>(
            counter_button_view(label, operation),
        ),
{
    lemma_vocabulary();
    let e0 = ElementView::empty("button"@);
    let e1 = e0.set_attribute("class"@, "btn btn-secondary"@);
    let e2 = e1.set_text(label);
    let e3 = e2.add_listener("click"@, Handler::Dispatch(Action::Counter(operation)));
    lemma_build("button"@, items, seq![e0, e1, e2, e3]);
    assert(e3.attributes =~= counter_button_view(label, operation).attributes);
    assert(e3.listeners =~= counter_button_view(label, operation).listeners);
}

/// The buttons that step the counter.
pub fn counter_actions() -> (element: Element)
    ensures
        element@ == counter_actions_view(),
{
    let plus = vec![
        attr("class", "btn btn-secondary"),
        text("+"),
        on("click", action_handler(Action::Counter(Operation::Increment))),
    ];
    let minus = vec![
        attr("class", "btn btn-secondary"),
        text("-"),
        on("click", action_handler(Action::Counter(Operation::Decrement))),
    ];
    let ghost plus_items = directives_view(plus@);
    let ghost minus_items = directives_view(minus@);
    let items = vec![attr("class", "counter-actions"), child("button", plus), child("button", minus)];
    proof {
        lemma_vocabulary();
        assert(plus_items =~= seq![
            DirectiveView::Attribute("class"@, "btn btn-secondary"@),
            DirectiveView::LiteralText("+"@),
            DirectiveView::EventBinding(
                "click"@,
                Handler::Dispatch(Action::Counter(Operation::Increment)),
            ),
        ]);
        assert(minus_items =~= seq![
            DirectiveView::Attribute("class"@, "btn btn-secondary"@),
            DirectiveView::LiteralText("-"@),
            DirectiveView::EventBinding(
                "click"@,
                Handler::Dispatch(Action::Counter(Operation::Decrement)),
            ),
        ]);
        lemma_counter_button(plus_items, "+"@, Operation::Increment);
        lemma_counter_button(minus_items, "-"@, Operation::Decrement);
        let e0 = ElementView::empty("div"@);
        let e1 = e0.set_attribute("class"@, "counter-actions"@);
        let e2 = e1.append_child(counter_button_view("+"@, Operation::Increment));
        let e3 = e2.append_child(counter_button_view("-"@, Operation::Decrement));
        lemma_build("div"@, directives_view(items@), seq![e0, e1, e2, e3]);
        assert(e3.attributes =~= counter_actions_view().attributes);
        assert(e3.children =~= counter_actions_view().children);
    }
    build("div", items).unwrap()
}

} // verus!

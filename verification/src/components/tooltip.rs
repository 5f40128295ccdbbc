//! Tooltips.

use vstd::prelude::*;
use vstd::string::StringExecFns;
use crate::components::lemma_vocabulary;
use crate::dom::{Element, ElementView};
use crate::rsx::{attr, build, child, child_expr, directives_view, dynamic_text, lemma_build};
use crate::utils::owned;

verus! {

/// The side of its anchor on which a tooltip is shown.
#[derive(Copy, Clone, Debug, PartialEq, Eq, Structural)]
pub enum TooltipPosition {
    Top,
    Bottom,
    Left,
    Right,
}

impl TooltipPosition {
    /// The class of the position.
    pub open spec fn class_name(self) -> Seq<char> {
        match self {
            TooltipPosition::Top => "tooltip-top"@,
            TooltipPosition::Bottom => "tooltip-bottom"@,
            TooltipPosition::Left => "tooltip-left"@,
            TooltipPosition::Right => "tooltip-right"@,
        }
    }

    /// The class of the position.
    pub fn to_class(&self) -> (class: &'static str)
        ensures
            class@ == self.class_name(),
    {
        match self {
            TooltipPosition::Top => "tooltip-top",
            TooltipPosition::Bottom => "tooltip-bottom",
            TooltipPosition::Left => "tooltip-left",
            TooltipPosition::Right => "tooltip-right",
        }
    }
}

/// The label of a tooltip: a span with the tooltip class, the class of the
/// position and the content as its text.
pub open spec fn tooltip_label_view(content: Seq<char>, position: TooltipPosition) -> ElementView {
    ElementView {
        tag: "span"@,
        attributes: seq![("class"@, "tooltip "@ + position.class_name())],
        styles: Seq::empty(),
        text: Some(content),
        listeners: Seq::empty(),
        children: Seq::empty(),
    }
}

/// A tooltip: a container that holds the anchor and, after it, the label.
pub open spec fn tooltip_view(
    content: Seq<char>,
    position: TooltipPosition,
    children: ElementView,
) -> ElementView {
    ElementView {
        tag: "div"@,
        attributes: seq![("class"@, "tooltip-container"@)],
        styles: Seq::empty(),
        text: None,
        listeners: Seq::empty(),
        children: seq![children, tooltip_label_view(content, position)],
    }
}

/// Wraps an anchor in a tooltip that shows `content` on the side that
/// `position` names.
pub fn tooltip(content: &str, position: TooltipPosition, children: Element) -> (element: Element)
    ensures
        element@ == tooltip_view(content@, position, children@),
{
    let mut class_name = owned("tooltip ");
    class_name.append(position.to_class());
    let label = vec![attr("class", class_name.as_str()), dynamic_text(content)];
    let ghost label_items = directives_view(label@);
    let items = vec![attr("class", "tooltip-container"), child_expr(children), child("span", label)];
    proof {
        lemma_vocabulary();
        let l0 = ElementView::empty("span"@);
        let l1 = l0.set_attribute("class"@, class_name@);
        let l2 = l1.set_text(content@);
        lemma_build("span"@, label_items, seq![l0, l1, l2]);
        assert(l2.attributes =~= tooltip_label_view(content@, position).attributes);
        let e0 = ElementView::empty("div"@);
        let e1 = e0.set_attribute("class"@, "tooltip-container"@);
        let e2 = e1.append_child(children@);
        let e3 = e2.append_child(l2);
        lemma_build("div"@, directives_view(items@), seq![e0, e1, e2, e3]);
        assert(e3.attributes =~= tooltip_view(content@, position, children@).attributes);
        assert(e3.children =~= tooltip_view(content@, position, children@).children);
    }
    build("div", items).unwrap()
}

} // verus!

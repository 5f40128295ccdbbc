//! The template compiler: a template is a tag with a list of directives,
//! and [`build`] carries the directives out in their order on a bare
//! element of that tag.

use vstd::prelude::*;
use crate::dom::{
    elements_view, lemma_assign_valid, valid_name, valid_names, BuildError, Element, ElementView,
    Handler,
};
use crate::utils::owned;

verus! {

/// One instruction of a template. The instructions of a template are
/// carried out in the order in which they are given.
#[derive(Debug, PartialEq, Eq)]
pub enum Directive {
    /// Sets or overwrites the attribute of that name.
    Attribute(String, String),
    /// Sets the text of the element to the literal.
    LiteralText(&'static str),
    /// Sets the text of the element to a value that was computed and turned
    /// into a string when the template was written down.
    DynamicText(String),
    /// Binds a handler to the event of that name.
    EventBinding(String, Handler),
    /// A nested template, given by its tag and its own instructions: it is
    /// built and appended.
    Child(String, Vec<Directive>),
    /// An element that was built before: it is appended as it is.
    ChildExpr(Element),
    /// The elements that were made of the items of a sequence, one for each
    /// item: they are appended in the order of the sequence.
    IterExpr(Vec<Element>),
}

/// The mathematical value of a [`Directive`].
pub enum DirectiveView {
    Attribute(Seq<char>, Seq<char>),
    LiteralText(Seq<char>),
    DynamicText(Seq<char>),
    EventBinding(Seq<char>, Handler),
    Child(Seq<char>, Seq<DirectiveView>),
    ChildExpr(ElementView),
    IterExpr(Seq<ElementView>),
}

/// The value of a directive: that of each field, and of each nested
/// directive in turn.
pub open spec fn directive_view(directive: Directive) -> DirectiveView
    decreases directive,
{
    match directive {
        Directive::Attribute(name, value) => DirectiveView::Attribute(name@, value@),
        Directive::LiteralText(text) => DirectiveView::LiteralText(text@),
        Directive::DynamicText(text) => DirectiveView::DynamicText(text@),
        Directive::EventBinding(event, handler) => DirectiveView::EventBinding(event@, handler),
        Directive::Child(tag, items) => DirectiveView::Child(
            tag@,
            Seq::new(
                items@.len(),
                |i: int|
                    if 0 <= i < items@.len() {
                        directive_view(items@[i])
                    } else {
                        arbitrary()
                    },
            ),
        ),
        Directive::ChildExpr(child) => DirectiveView::ChildExpr(child@),
        Directive::IterExpr(children) => DirectiveView::IterExpr(elements_view(children@)),
    }
}

impl View for Directive {
    type V = DirectiveView;

    open spec fn view(&self) -> DirectiveView {
        directive_view(*self)
    }
}

/// The mathematical values of a list of directives.
pub open spec fn directives_view(items: Seq<Directive>) -> Seq<DirectiveView> {
    Seq::new(items.len(), |i: int| items[i]@)
}

/// The directive that sets the attribute `name` to `value`.
pub fn attr(name: &str, value: &str) -> (directive: Directive)
    ensures
        directive@ == DirectiveView::Attribute(name@, value@),
{
    Directive::Attribute(owned(name), owned(value))
}

/// The directive that sets the text to a literal.
pub fn text(literal: &'static str) -> (directive: Directive)
    ensures
        directive@ == DirectiveView::LiteralText(literal@),
{
    Directive::LiteralText(literal)
}

/// The directive that sets the text to a computed value.
pub fn dynamic_text(value: &str) -> (directive: Directive)
    ensures
        directive@ == DirectiveView::DynamicText(value@),
{
    Directive::DynamicText(owned(value))
}

/// The directive that binds `handler` to the event `event`.
pub fn on(event: &str, handler: Handler) -> (directive: Directive)
    ensures
        directive@ == DirectiveView::EventBinding(event@, handler),
{
    Directive::EventBinding(owned(event), handler)
}

/// The directive that nests a template.
pub fn child(tag: &str, items: Vec<Directive>) -> (directive: Directive)
    ensures
        directive@ == DirectiveView::Child(tag@, directives_view(items@)),
{
    let ghost nested = directives_view(items@);
    let directive = Directive::Child(owned(tag), items);
    proof {
        assert(directive@ matches DirectiveView::Child(_, views) && views =~= nested);
    }
    directive
}

/// The directive that appends an element that was built before.
pub fn child_expr(element: Element) -> (directive: Directive)
    ensures
        directive@ == DirectiveView::ChildExpr(element@),
{
    Directive::ChildExpr(element)
}

/// The directive that appends the elements made of the items of a sequence.
pub fn iter_expr(elements: Vec<Element>) -> (directive: Directive)
    ensures
        directive@ == DirectiveView::IterExpr(elements_view(elements@)),
{
    Directive::IterExpr(elements)
}

/// Makes one element of each item of a sequence, in the order of the
/// sequence: `map_fn` is called with the position of the item and the
/// item. The elements are what an `IterExpr` directive appends; an empty
/// sequence gives none.
pub fn map_indexed<T, F: Fn(usize, &T) -> Element>(items: &Vec<T>, map_fn: F) -> (elements: Vec<
    Element,
>)
    requires
        forall|i: int| 0 <= i < items.len() ==> call_requires(map_fn, (i as usize, &items[i])),
    ensures
        elements.len() == items.len(),
        forall|i: int|
            0 <= i < items.len() ==> call_ensures(
                map_fn,
                (i as usize, &items[i]),
                #[trigger] elements[i],
            ),
{
    let mut elements: Vec<Element> = Vec::new();
    let mut index: usize = 0;
    while index < items.len()
        invariant
            index <= items.len(),
            elements.len() == index,
            forall|i: int| 0 <= i < items.len() ==> call_requires(map_fn, (i as usize, &items[i])),
            forall|i: int|
                0 <= i < index ==> call_ensures(
                    map_fn,
                    (i as usize, &items[i]),
                    #[trigger] elements[i],
                ),
        decreases items.len() - index,
    {
        let element = map_fn(index, &items[index]);
        elements.push(element);
        index += 1;
    }
    elements
}

/// The element after one directive, or the error that refuses the directive.
pub open spec fn apply_directive(element: ElementView, directive: DirectiveView) -> Result<
    ElementView,
    BuildError,
>
    decreases directive, 0nat,
{
    match directive {
        DirectiveView::Attribute(name, value) => if valid_name(name) {
            Ok(element.set_attribute(name, value))
        } else {
            Err(BuildError::InvalidAttribute)
        },
        DirectiveView::LiteralText(text) => Ok(element.set_text(text)),
        DirectiveView::DynamicText(text) => Ok(element.set_text(text)),
        DirectiveView::EventBinding(event, handler) => Ok(element.add_listener(event, handler)),
        DirectiveView::Child(tag, items) => match build_spec(tag, items) {
            Ok(child) => Ok(element.append_child(child)),
            Err(error) => Err(error),
        },
        DirectiveView::ChildExpr(child) => Ok(element.append_child(child)),
        DirectiveView::IterExpr(children) => Ok(element.append_children(children)),
    }
}

/// The element after the directives, carried out from the first to the last,
/// or the error of the first directive that is refused.
pub open spec fn apply_directives(element: ElementView, items: Seq<DirectiveView>) -> Result<
    ElementView,
    BuildError,
>
    decreases items, 1nat,
{
    if items.len() == 0 {
        Ok(element)
    } else {
        match apply_directive(element, items[0]) {
            Ok(next) => apply_directives(next, items.drop_first()),
            Err(error) => Err(error),
        }
    }
}

/// The directives from the `i`-th on are carried out by carrying out the
/// `i`-th and then those after it.
proof fn lemma_apply_step(element: ElementView, items: Seq<DirectiveView>, i: int)
    requires
        0 <= i < items.len(),
    ensures
        apply_directives(element, items.skip(i)) == match apply_directive(element, items[i]) {
            Ok(next) => apply_directives(next, items.skip(i + 1)),
            Err(error) => Err(error),
        },
{
    assert(items.skip(i).drop_first() =~= items.skip(i + 1));
}

/// A template with a valid tag builds the last of a row of elements that
/// starts with the bare element and in which every directive leads from one
/// element to the next.
pub proof fn lemma_build(tag: Seq<char>, items: Seq<DirectiveView>, stages: Seq<ElementView>)
    requires
        valid_name(tag),
        stages.len() == items.len() + 1,
        stages[0] == ElementView::empty(tag),
        forall|i: int|
            0 <= i < items.len() ==> apply_directive(stages[i], #[trigger] items[i]) == Ok::<
                ElementView,
                BuildError,
            >(stages[i + 1]),
    ensures
        build_spec(tag, items) == Ok::<ElementView, BuildError>(stages.last()),
{
    lemma_apply_stages(items, stages, 0);
    assert(items.skip(0) =~= items);
}

/// From any place in such a row, the directives that are left lead to its
/// last element.
proof fn lemma_apply_stages(items: Seq<DirectiveView>, stages: Seq<ElementView>, from: int)
    requires
        0 <= from <= items.len(),
        stages.len() == items.len() + 1,
        forall|i: int|
            0 <= i < items.len() ==> apply_directive(stages[i], #[trigger] items[i]) == Ok::<
                ElementView,
                BuildError,
            >(stages[i + 1]),
    ensures
        apply_directives(stages[from], items.skip(from)) == Ok::<ElementView, BuildError>(
            stages.last(),
        ),
    decreases items.len() - from,
{
    if from < items.len() {
        lemma_apply_step(stages[from], items, from);
        lemma_apply_stages(items, stages, from + 1);
    } else {
        assert(items.skip(from) =~= Seq::empty());
    }
}

/// What a template builds: a bare element of type `tag` on which the
/// directives were carried out; an error where the tag, the name of an
/// attribute, or a nested template is refused.
pub open spec fn build_spec(tag: Seq<char>, items: Seq<DirectiveView>) -> Result<
    ElementView,
    BuildError,
>
    decreases items, 2nat,
{
    if valid_name(tag) {
        apply_directives(ElementView::empty(tag), items)
    } else {
        Err(BuildError::InvalidTag)
    }
}

/// The element that a template builds has a valid tag and valid names for
/// all its attributes.
pub proof fn lemma_build_names(tag: Seq<char>, items: Seq<DirectiveView>)
    ensures
        build_spec(tag, items) matches Ok(element) ==> valid_name(element.tag) && valid_names(
            element.attributes,
        ),
{
    if valid_name(tag) {
        lemma_apply_names(ElementView::empty(tag), items);
    }
}

/// Directives keep the tag of an element and the validity of the names of
/// its attributes.
proof fn lemma_apply_names(element: ElementView, items: Seq<DirectiveView>)
    requires
        valid_names(element.attributes),
    ensures
        apply_directives(element, items) matches Ok(built) ==> built.tag == element.tag
            && valid_names(built.attributes),
    decreases items.len(),
{
    if items.len() > 0 {
        match apply_directive(element, items[0]) {
            Ok(next) => {
                match items[0] {
                    DirectiveView::Attribute(name, value) => {
                        lemma_assign_valid(element.attributes, name, value);
                    },
                    _ => {},
                }
                lemma_apply_names(next, items.drop_first());
            },
            Err(_) => {},
        }
    }
}

/// Builds the element that a template describes. Either the whole template
/// is built or an error is returned: no element is handed out half built.
pub fn build(tag: &str, items: Vec<Directive>) -> (result: Result<Element, BuildError>)
    ensures
        match result {
            Ok(element) => build_spec(tag@, directives_view(items@)) == Ok::<
                ElementView,
                BuildError,
            >(element@),
            Err(error) => build_spec(tag@, directives_view(items@)) == Err::<
                ElementView,
                BuildError,
            >(error),
        },
    decreases items,
{
    let mut element = match Element::new(tag) {
        Ok(element) => element,
        Err(error) => {
            return Err(error);
        },
    };
    let ghost given = items;
    let ghost all = directives_view(items@);
    proof {
        assert(all.skip(0) =~= all);
    }
    for directive in it: items
        invariant
            it.seq() == given@,
            given == items,
            all == directives_view(given@),
            valid_name(tag@),
            apply_directives(element@, all.skip(it.index() as int)) == build_spec(tag@, all),
    {
        let ghost i = it.index() as int;
        proof {
            lemma_apply_step(element@, all, i);
            assert(all[i] == directive@);
            assert(decreases_to!(given => given[i]));
        }
        match directive {
            Directive::Attribute(name, value) => {
                match element.set_attribute(name.as_str(), value.as_str()) {
                    Ok(()) => {},
                    Err(error) => {
                        return Err(error);
                    },
                }
            },
            Directive::LiteralText(text) => {
                element.set_text_content(text);
            },
            Directive::DynamicText(text) => {
                element.set_text_content(text.as_str());
            },
            Directive::EventBinding(event, handler) => {
                element.add_event_listener(event.as_str(), handler);
            },
            Directive::Child(child_tag, child_items) => {
                proof {
                    assert(directive@ matches DirectiveView::Child(_, nested) && nested
                        =~= directives_view(child_items@));
                }
                match build(child_tag.as_str(), child_items) {
                    Ok(child) => {
                        element.append_child(child);
                    },
                    Err(error) => {
                        return Err(error);
                    },
                }
            },
            Directive::ChildExpr(child) => {
                element.append_child(child);
            },
            Directive::IterExpr(children) => {
                element.append_children(children);
            },
        }
    }
    proof {
        assert(all.skip(all.len() as int) =~= Seq::empty());
    }
    Ok(element)
}

} // verus!

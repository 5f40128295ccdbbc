//! The page as plain data: elements with their attributes, styles, text,
//! listeners and children, the search for an element by its identifier, and
//! the patches that write to an element.

use vstd::prelude::*;
use crate::router::Route;
use crate::state::actions::Action;
use crate::utils::{owned, str_eq};

verus! {

/// What a bound listener does when its event fires. The host keeps one
/// callback per listener and hands the handler back to the runtime.
#[derive(Copy, Clone, Debug, PartialEq, Eq, Structural)]
pub enum Handler {
    /// Dispatch the action.
    Dispatch(Action),
    /// Go to the route.
    Navigate(Route),
    /// Add the text of the todo input as a new todo.
    AddTodo,
    /// As `AddTodo`, where the key of the event is the Enter key.
    AddTodoOnEnter,
}

/// Why a template could not be built.
#[derive(Copy, Clone, Debug, PartialEq, Eq, Structural)]
pub enum BuildError {
    /// The tag of an element is not a valid name.
    InvalidTag,
    /// The name of an attribute is not a valid name.
    InvalidAttribute,
}

/// Whether a character may start the name of a tag or of an attribute.
pub open spec fn name_start(c: char) -> bool {
    ('a' <= c && c <= 'z') || ('A' <= c && c <= 'Z') || c == '_'
}

/// Whether a character may stand in the name of a tag or of an attribute.
pub open spec fn name_char(c: char) -> bool {
    name_start(c) || ('0' <= c && c <= '9') || c == '-'
}

/// The names that the page accepts for tags and attributes: a letter or an
/// underscore, then letters, digits, underscores and hyphens.
pub open spec fn valid_name(name: Seq<char>) -> bool {
    &&& name.len() > 0
    &&& name_start(name[0])
    &&& forall|i: int| 0 <= i < name.len() ==> name_char(#[trigger] name[i])
}

/// The value that the first pair named `name` holds.
pub open spec fn lookup(pairs: Seq<(Seq<char>, Seq<char>)>, name: Seq<char>) -> Option<Seq<char>>
    decreases pairs.len(),
{
    if pairs.len() == 0 {
        None
    } else if pairs[0].0 == name {
        Some(pairs[0].1)
    } else {
        lookup(pairs.drop_first(), name)
    }
}

/// The pairs after `name` is given `value`: the first pair of that name is
/// overwritten where it stands; where there is none, a new pair is appended.
pub open spec fn assign(
    pairs: Seq<(Seq<char>, Seq<char>)>,
    name: Seq<char>,
    value: Seq<char>,
) -> Seq<(Seq<char>, Seq<char>)>
    decreases pairs.len(),
{
    if pairs.len() == 0 {
        seq![(name, value)]
    } else if pairs[0].0 == name {
        pairs.update(0, (name, value))
    } else {
        seq![pairs[0]] + assign(pairs.drop_first(), name, value)
    }
}

/// Where the first pair named `name` stands at `i`, that pair is the one
/// that is read and overwritten.
pub proof fn lemma_assign_at(
    pairs: Seq<(Seq<char>, Seq<char>)>,
    name: Seq<char>,
    value: Seq<char>,
    i: int,
)
    requires
        0 <= i < pairs.len(),
        pairs[i].0 == name,
        forall|j: int| 0 <= j < i ==> (#[trigger] pairs[j]).0 != name,
    ensures
        assign(pairs, name, value) == pairs.update(i, (name, value)),
        lookup(pairs, name) == Some(pairs[i].1),
    decreases i,
{
    if i > 0 {
        let rest = pairs.drop_first();
        assert(pairs[0].0 != name);
        assert forall|j: int| 0 <= j < i - 1 implies (#[trigger] rest[j]).0 != name by {
            assert(rest[j] == pairs[j + 1]);
        }
        lemma_assign_at(rest, name, value, i - 1);
        assert(seq![pairs[0]] + rest.update(i - 1, (name, value)) =~= pairs.update(
            i,
            (name, value),
        ));
    }
}

/// Where no pair is named `name`, none is read and the new pair is appended.
pub proof fn lemma_assign_absent(
    pairs: Seq<(Seq<char>, Seq<char>)>,
    name: Seq<char>,
    value: Seq<char>,
)
    requires
        forall|j: int| 0 <= j < pairs.len() ==> (#[trigger] pairs[j]).0 != name,
    ensures
        assign(pairs, name, value) == pairs.push((name, value)),
        lookup(pairs, name) is None,
    decreases pairs.len(),
{
    if pairs.len() > 0 {
        let rest = pairs.drop_first();
        assert(pairs[0].0 != name);
        assert forall|j: int| 0 <= j < rest.len() implies (#[trigger] rest[j]).0 != name by {
            assert(rest[j] == pairs[j + 1]);
        }
        lemma_assign_absent(rest, name, value);
        assert(seq![pairs[0]] + rest.push((name, value)) =~= pairs.push((name, value)));
    } else {
        assert(seq![(name, value)] =~= pairs.push((name, value)));
    }
}

/// After `name` is given `value`, `name` reads as `value` and every other
/// name reads as before.
pub proof fn lemma_lookup_assign(
    pairs: Seq<(Seq<char>, Seq<char>)>,
    name: Seq<char>,
    value: Seq<char>,
    other: Seq<char>,
)
    ensures
        lookup(assign(pairs, name, value), other) == if other == name {
            Some(value)
        } else {
            lookup(pairs, other)
        },
    decreases pairs.len(),
{
    if pairs.len() == 0 {
        assert(seq![(name, value)].drop_first() =~= pairs);
    } else if pairs[0].0 == name {
        assert(pairs.update(0, (name, value)).drop_first() =~= pairs.drop_first());
    } else {
        let rest = assign(pairs.drop_first(), name, value);
        lemma_lookup_assign(pairs.drop_first(), name, value, other);
        assert((seq![pairs[0]] + rest).drop_first() =~= rest);
    }
}

/// Giving `name` a value twice is giving it the second value: the later
/// write wins and the pair stays where it stands.
pub proof fn lemma_assign_twice(
    pairs: Seq<(Seq<char>, Seq<char>)>,
    name: Seq<char>,
    first: Seq<char>,
    second: Seq<char>,
)
    ensures
        assign(assign(pairs, name, first), name, second) == assign(pairs, name, second),
    decreases pairs.len(),
{
    if pairs.len() == 0 {
        assert(seq![(name, first)].update(0, (name, second)) =~= seq![(name, second)]);
    } else if pairs[0].0 == name {
        assert(pairs.update(0, (name, first)).update(0, (name, second)) =~= pairs.update(
            0,
            (name, second),
        ));
    } else {
        let rest = assign(pairs.drop_first(), name, first);
        lemma_assign_twice(pairs.drop_first(), name, first, second);
        assert((seq![pairs[0]] + rest).drop_first() =~= rest);
    }
}

/// Whether every pair has a valid name.
pub open spec fn valid_names(pairs: Seq<(Seq<char>, Seq<char>)>) -> bool {
    forall|i: int| 0 <= i < pairs.len() ==> valid_name((#[trigger] pairs[i]).0)
}

/// Giving a valid name a value keeps the names of the pairs valid.
pub proof fn lemma_assign_valid(
    pairs: Seq<(Seq<char>, Seq<char>)>,
    name: Seq<char>,
    value: Seq<char>,
)
    requires
        valid_names(pairs),
        valid_name(name),
    ensures
        valid_names(assign(pairs, name, value)),
    decreases pairs.len(),
{
    if pairs.len() > 0 && pairs[0].0 != name {
        let rest = pairs.drop_first();
        assert forall|i: int| 0 <= i < rest.len() implies valid_name((#[trigger] rest[i]).0) by {
            assert(rest[i] == pairs[i + 1]);
        }
        lemma_assign_valid(rest, name, value);
        let after = assign(pairs, name, value);
        assert forall|i: int| 0 <= i < after.len() implies valid_name(
            (#[trigger] after[i]).0,
        ) by {
            if i > 0 {
                assert(after[i] == assign(rest, name, value)[i - 1]);
            } else {
                assert(after[0] == pairs[0]);
            }
        }
    }
}

/// The mathematical value of a list of name and value pairs.
pub open spec fn pairs_view(pairs: Seq<(String, String)>) -> Seq<(Seq<char>, Seq<char>)> {
    Seq::new(pairs.len(), |i: int| (pairs[i].0@, pairs[i].1@))
}

/// The mathematical value of a list of listeners.
pub open spec fn listeners_view(listeners: Seq<(String, Handler)>) -> Seq<(Seq<char>, Handler)> {
    Seq::new(listeners.len(), |i: int| (listeners[i].0@, listeners[i].1))
}

/// An element of the page: its tag, its attributes and inline styles in the
/// order in which they were first set, its text, its listeners in the order
/// in which they were bound, and its child elements in document order. The
/// text and the children are set apart from each other, and on the page the
/// text of an element stands before its children. The tag and the names of
/// the attributes are checked where they are set: see [`valid_name`].
#[derive(Debug, PartialEq, Eq)]
pub struct Element {
    tag: String,
    attributes: Vec<(String, String)>,
    styles: Vec<(String, String)>,
    text: Option<String>,
    listeners: Vec<(String, Handler)>,
    children: Vec<Element>,
}

/// The mathematical value of an [`Element`].
pub struct ElementView {
    pub tag: Seq<char>,
    pub attributes: Seq<(Seq<char>, Seq<char>)>,
    pub styles: Seq<(Seq<char>, Seq<char>)>,
    pub text: Option<Seq<char>>,
    pub listeners: Seq<(Seq<char>, Handler)>,
    pub children: Seq<ElementView>,
}

/// The value of an element: that of each field, and of each child in turn.
spec fn element_view(element: Element) -> ElementView
    decreases element,
{
    ElementView {
        tag: element.tag@,
        attributes: pairs_view(element.attributes@),
        styles: pairs_view(element.styles@),
        text: match element.text {
            Some(text) => Some(text@),
            None => None,
        },
        listeners: listeners_view(element.listeners@),
        children: Seq::new(
            element.children@.len(),
            |i: int|
                if 0 <= i < element.children@.len() {
                    element_view(element.children@[i])
                } else {
                    arbitrary()
                },
        ),
    }
}

impl View for Element {
    type V = ElementView;

    closed spec fn view(&self) -> ElementView {
        element_view(*self)
    }
}

impl ElementView {
    /// A bare element: no attributes, styles, text, listeners or children.
    pub open spec fn empty(tag: Seq<char>) -> ElementView {
        ElementView {
            tag,
            attributes: Seq::empty(),
            styles: Seq::empty(),
            text: None,
            listeners: Seq::empty(),
            children: Seq::empty(),
        }
    }

    /// The value of the attribute `name`.
    pub open spec fn attribute(self, name: Seq<char>) -> Option<Seq<char>> {
        lookup(self.attributes, name)
    }

    /// The value of the inline style `property`.
    pub open spec fn style(self, property: Seq<char>) -> Option<Seq<char>> {
        lookup(self.styles, property)
    }

    /// The identifier of the element.
    pub open spec fn id(self) -> Option<Seq<char>> {
        self.attribute("id"@)
    }

    /// The element after the attribute `name` is given `value`.
    pub open spec fn set_attribute(self, name: Seq<char>, value: Seq<char>) -> ElementView {
        ElementView { attributes: assign(self.attributes, name, value), ..self }
    }

    /// The element after the inline style `property` is given `value`.
    pub open spec fn set_style(self, property: Seq<char>, value: Seq<char>) -> ElementView {
        ElementView { styles: assign(self.styles, property, value), ..self }
    }

    /// The element after its text is replaced.
    pub open spec fn set_text(self, text: Seq<char>) -> ElementView {
        ElementView { text: Some(text), ..self }
    }

    /// The element after one more listener is bound.
    pub open spec fn add_listener(self, event: Seq<char>, handler: Handler) -> ElementView {
        ElementView { listeners: self.listeners.push((event, handler)), ..self }
    }

    /// The element after `child` is appended.
    pub open spec fn append_child(self, child: ElementView) -> ElementView {
        ElementView { children: self.children.push(child), ..self }
    }

    /// The element after `children` are appended in their order.
    pub open spec fn append_children(self, children: Seq<ElementView>) -> ElementView {
        ElementView { children: self.children + children, ..self }
    }

    /// The element without its text and its children.
    pub open spec fn clear(self) -> ElementView {
        ElementView { text: None, children: Seq::empty(), ..self }
    }
}

/// A write to the page, addressed to the first element in document order
/// that has the identifier. Where no element has it, the write is skipped.
#[derive(Debug, PartialEq, Eq)]
pub enum Patch {
    /// Replace the text of the element.
    SetText { id: String, text: String },
    /// Set the class attribute of the element.
    SetClass { id: String, class_name: String },
    /// Set a property of the inline style of the element.
    SetStyle { id: String, property: String, value: String },
    /// Discard the text and the children of the element and put these
    /// children in their place.
    ReplaceContent { id: String, children: Vec<Element> },
}

/// The mathematical value of a [`Patch`].
pub enum PatchView {
    SetText { id: Seq<char>, text: Seq<char> },
    SetClass { id: Seq<char>, class_name: Seq<char> },
    SetStyle { id: Seq<char>, property: Seq<char>, value: Seq<char> },
    ReplaceContent { id: Seq<char>, children: Seq<ElementView> },
}

impl View for Patch {
    type V = PatchView;

    open spec fn view(&self) -> PatchView {
        match *self {
            Patch::SetText { id, text } => PatchView::SetText { id: id@, text: text@ },
            Patch::SetClass { id, class_name } => PatchView::SetClass {
                id: id@,
                class_name: class_name@,
            },
            Patch::SetStyle { id, property, value } => PatchView::SetStyle {
                id: id@,
                property: property@,
                value: value@,
            },
            Patch::ReplaceContent { id, children } => PatchView::ReplaceContent {
                id: id@,
                children: elements_view(children@),
            },
        }
    }
}

/// The mathematical values of a list of patches.
pub open spec fn patches_view(patches: Seq<Patch>) -> Seq<PatchView> {
    Seq::new(patches.len(), |i: int| patches[i]@)
}

impl Patch {
    /// The identifier of the element that the patch is addressed to.
    pub fn id(&self) -> (id: &str)
        ensures
            id@ == self@.id(),
    {
        match self {
            Patch::SetText { id, .. } => id.as_str(),
            Patch::SetClass { id, .. } => id.as_str(),
            Patch::SetStyle { id, .. } => id.as_str(),
            Patch::ReplaceContent { id, .. } => id.as_str(),
        }
    }
}

impl PatchView {
    /// The identifier of the element that the patch is addressed to.
    pub open spec fn id(self) -> Seq<char> {
        match self {
            PatchView::SetText { id, .. } => id,
            PatchView::SetClass { id, .. } => id,
            PatchView::SetStyle { id, .. } => id,
            PatchView::ReplaceContent { id, .. } => id,
        }
    }

    /// The element that the patch is addressed to, after the write.
    pub open spec fn write(self, element: ElementView) -> ElementView {
        match self {
            PatchView::SetText { text, .. } => element.set_text(text),
            PatchView::SetClass { class_name, .. } => element.set_attribute("class"@, class_name),
            PatchView::SetStyle { property, value, .. } => element.set_style(property, value),
            PatchView::ReplaceContent { children, .. } => element.clear().append_children(
                children,
            ),
        }
    }
}

/// The first element in document order, among `elements` and their
/// descendants, that has the identifier.
pub open spec fn find_in(elements: Seq<ElementView>, id: Seq<char>) -> Option<ElementView>
    decreases elements, 0nat,
{
    if elements.len() == 0 {
        None
    } else {
        match elements[0].find(id) {
            Some(found) => Some(found),
            None => find_in(elements.drop_first(), id),
        }
    }
}

/// The elements after the patch is applied to the first element in document
/// order, among `elements` and their descendants, that has the identifier.
pub open spec fn apply_in(elements: Seq<ElementView>, patch: PatchView) -> Seq<ElementView>
    decreases elements, 0nat,
{
    if elements.len() == 0 {
        elements
    } else if elements[0].find(patch.id()) is Some {
        elements.update(0, elements[0].apply(patch))
    } else {
        seq![elements[0]] + apply_in(elements.drop_first(), patch)
    }
}

impl ElementView {
    /// The first element in document order, among the element itself and
    /// its descendants, that has the identifier.
    pub open spec fn find(self, id: Seq<char>) -> Option<ElementView>
        decreases self, 1nat,
    {
        if self.id() == Some(id) {
            Some(self)
        } else {
            find_in(self.children, id)
        }
    }

    /// The element after the patch is applied to the first element in
    /// document order, among the element itself and its descendants, that
    /// has the identifier of the patch; the element itself where there is
    /// none.
    pub open spec fn apply(self, patch: PatchView) -> ElementView
        decreases self, 1nat,
    {
        if self.id() == Some(patch.id()) {
            patch.write(self)
        } else {
            ElementView { children: apply_in(self.children, patch), ..self }
        }
    }
}

/// A patch leaves elements without its identifier as they are.
pub proof fn lemma_apply_absent(element: ElementView, patch: PatchView)
    requires
        element.find(patch.id()) is None,
    ensures
        element.apply(patch) == element,
    decreases element, 1nat,
{
    lemma_apply_in_absent(element.children, patch);
}

/// A patch leaves a list of elements without its identifier as it is.
pub proof fn lemma_apply_in_absent(elements: Seq<ElementView>, patch: PatchView)
    requires
        find_in(elements, patch.id()) is None,
    ensures
        apply_in(elements, patch) == elements,
    decreases elements, 0nat,
{
    if elements.len() > 0 {
        lemma_apply_in_absent(elements.drop_first(), patch);
        assert(seq![elements[0]] + elements.drop_first() =~= elements);
    }
}

/// Where the `i`-th of a list of elements is the first that holds the
/// identifier, the search and the patch go into that element.
pub proof fn lemma_apply_in_at(elements: Seq<ElementView>, patch: PatchView, i: int)
    requires
        0 <= i < elements.len(),
        elements[i].find(patch.id()) is Some,
        forall|j: int| 0 <= j < i ==> (#[trigger] elements[j]).find(patch.id()) is None,
    ensures
        apply_in(elements, patch) == elements.update(i, elements[i].apply(patch)),
        find_in(elements, patch.id()) == elements[i].find(patch.id()),
    decreases i,
{
    if i > 0 {
        let rest = elements.drop_first();
        assert(elements[0].find(patch.id()) is None);
        assert forall|j: int| 0 <= j < i - 1 implies (#[trigger] rest[j]).find(
            patch.id(),
        ) is None by {
            assert(rest[j] == elements[j + 1]);
        }
        lemma_apply_in_at(rest, patch, i - 1);
        assert(seq![elements[0]] + rest.update(i - 1, rest[i - 1].apply(patch))
            =~= elements.update(i, elements[i].apply(patch)));
    }
}

/// Where none of a list of elements holds the identifier, the search finds
/// nothing.
pub proof fn lemma_find_in_absent(elements: Seq<ElementView>, id: Seq<char>)
    requires
        forall|j: int| 0 <= j < elements.len() ==> (#[trigger] elements[j]).find(id) is None,
    ensures
        find_in(elements, id) is None,
    decreases elements.len(),
{
    if elements.len() > 0 {
        let rest = elements.drop_first();
        assert(elements[0].find(id) is None);
        assert forall|j: int| 0 <= j < rest.len() implies (#[trigger] rest[j]).find(
            id,
        ) is None by {
            assert(rest[j] == elements[j + 1]);
        }
        lemma_find_in_absent(rest, id);
    }
}

/// The mathematical values of a list of elements.
pub open spec fn elements_view(elements: Seq<Element>) -> Seq<ElementView> {
    Seq::new(elements.len(), |i: int| elements[i]@)
}

impl Element {
    /// The value of the element is made of the values of its fields.
    proof fn lemma_view(&self)
        ensures
            self@.children == elements_view(self.children@),
            self@ == (ElementView {
                tag: self.tag@,
                attributes: pairs_view(self.attributes@),
                styles: pairs_view(self.styles@),
                text: match self.text {
                    Some(text) => Some(text@),
                    None => None,
                },
                listeners: listeners_view(self.listeners@),
                children: elements_view(self.children@),
            }),
    {
        assert(self@.children =~= elements_view(self.children@));
    }

    /// A bare element of type `tag`; refused where `tag` is not a valid name.
    pub fn new(tag: &str) -> (result: Result<Element, BuildError>)
        ensures
            match result {
                Ok(element) => valid_name(tag@) && element@ == ElementView::empty(tag@),
                Err(error) => !valid_name(tag@) && error == BuildError::InvalidTag,
            },
    {
        if !is_valid_name(tag) {
            return Err(BuildError::InvalidTag);
        }
        let element = Element {
            tag: owned(tag),
            attributes: Vec::new(),
            styles: Vec::new(),
            text: None,
            listeners: Vec::new(),
            children: Vec::new(),
        };
        assert(element@.attributes =~= Seq::empty());
        assert(element@.styles =~= Seq::empty());
        assert(element@.listeners =~= Seq::empty());
        assert(element@.children =~= Seq::empty());
        Ok(element)
    }

    /// Sets or overwrites an attribute; refused, with the element unchanged,
    /// where `name` is not a valid name.
    pub fn set_attribute(&mut self, name: &str, value: &str) -> (result: Result<(), BuildError>)
        ensures
            valid_name(name@) ==> result is Ok && final(self)@ == old(self)@.set_attribute(
                name@,
                value@,
            ),
            !valid_name(name@) ==> result == Err::<(), BuildError>(BuildError::InvalidAttribute)
                && final(self)@ == old(self)@,
    {
        if !is_valid_name(name) {
            return Err(BuildError::InvalidAttribute);
        }
        assign_pair(&mut self.attributes, owned(name), owned(value));
        proof {
            self.lemma_view();
            old(self).lemma_view();
        }
        Ok(())
    }

    /// Sets the class attribute.
    pub fn set_class_name(&mut self, class_name: &str)
        ensures
            final(self)@ == old(self)@.set_attribute("class"@, class_name@),
    {
        assign_pair(&mut self.attributes, owned("class"), owned(class_name));
        proof {
            self.lemma_view();
            old(self).lemma_view();
        }
    }

    /// Sets or overwrites a property of the inline style.
    pub fn set_style_property(&mut self, property: &str, value: &str)
        ensures
            final(self)@ == old(self)@.set_style(property@, value@),
    {
        assign_pair(&mut self.styles, owned(property), owned(value));
        proof {
            self.lemma_view();
            old(self).lemma_view();
        }
    }

    /// Replaces the text of the element.
    pub fn set_text_content(&mut self, text: &str)
        ensures
            final(self)@ == old(self)@.set_text(text@),
    {
        self.text = Some(owned(text));
        proof {
            self.lemma_view();
            old(self).lemma_view();
        }
    }

    /// Binds one more listener; listeners of an element accumulate.
    pub fn add_event_listener(&mut self, event: &str, handler: Handler)
        ensures
            final(self)@ == old(self)@.add_listener(event@, handler),
    {
        self.listeners.push((owned(event), handler));
        proof {
            self.lemma_view();
            old(self).lemma_view();
            assert(listeners_view(self.listeners@) =~= listeners_view(old(self).listeners@).push(
                (event@, handler),
            ));
        }
    }

    /// Appends a child after the children that are there.
    pub fn append_child(&mut self, child: Element)
        ensures
            final(self)@ == old(self)@.append_child(child@),
    {
        self.children.push(child);
        proof {
            self.lemma_view();
            old(self).lemma_view();
            assert(elements_view(self.children@) =~= elements_view(old(self).children@).push(
                child@,
            ));
        }
    }

    /// Appends `children` in their order after the children that are there.
    pub fn append_children(&mut self, children: Vec<Element>)
        ensures
            final(self)@ == old(self)@.append_children(elements_view(children@)),
    {
        let mut children = children;
        let ghost added = children@;
        self.children.append(&mut children);
        proof {
            self.lemma_view();
            old(self).lemma_view();
            assert(elements_view(self.children@) =~= elements_view(old(self).children@)
                + elements_view(added));
        }
    }

    /// Discards the text and the children of the element.
    pub fn clear(&mut self)
        ensures
            final(self)@ == old(self)@.clear(),
    {
        self.text = None;
        self.children.clear();
        proof {
            self.lemma_view();
            assert(elements_view(self.children@) =~= Seq::empty());
        }
    }

    /// Whether the element has the identifier.
    pub fn has_id(&self, id: &str) -> (found: bool)
        ensures
            found == (self@.id() == Some(id@)),
    {
        match lookup_pair(&self.attributes, "id") {
            Some(value) => str_eq(value.as_str(), id),
            None => false,
        }
    }

    /// The first element in document order, among the element itself and
    /// its descendants, that has the identifier.
    pub fn get_element_by_id(&self, id: &str) -> (found: Option<&Element>)
        ensures
            match found {
                Some(element) => self@.find(id@) == Some(element@),
                None => self@.find(id@) is None,
            },
        decreases self,
    {
        if self.has_id(id) {
            return Some(self);
        }
        proof {
            self.lemma_view();
        }
        let ghost views = self@.children;
        proof {
            assert(views.skip(0) =~= views);
        }
        let mut i: usize = 0;
        while i < self.children.len()
            invariant
                i <= self.children.len(),
                self@.id() != Some(id@),
                views == self@.children,
                views == elements_view(self.children@),
                find_in(views.skip(i as int), id@) == find_in(views, id@),
            decreases self.children.len() - i,
        {
            proof {
                assert(views.skip(i as int).drop_first() =~= views.skip(i + 1));
                assert(views.skip(i as int)[0] == self.children[i as int]@);
            }
            match self.children[i].get_element_by_id(id) {
                Some(element) => {
                    return Some(element);
                },
                None => {},
            }
            i += 1;
        }
        None
    }

    /// Carries out the write of a patch on this element.
    fn write(&mut self, patch: Patch)
        ensures
            final(self)@ == patch@.write(old(self)@),
    {
        proof {
            old(self).lemma_view();
        }
        match patch {
            Patch::SetText { id: _, text } => {
                self.text = Some(text);
                proof {
                    self.lemma_view();
                }
            },
            Patch::SetClass { id: _, class_name } => {
                assign_pair(&mut self.attributes, owned("class"), class_name);
                proof {
                    self.lemma_view();
                }
            },
            Patch::SetStyle { id: _, property, value } => {
                assign_pair(&mut self.styles, property, value);
                proof {
                    self.lemma_view();
                }
            },
            Patch::ReplaceContent { id: _, children } => {
                self.text = None;
                self.children = children;
                proof {
                    self.lemma_view();
                    assert(self@.children =~= Seq::<ElementView>::empty() + elements_view(
                        children@,
                    ));
                }
            },
        }
    }

    /// Applies a patch to the first element in document order, among the
    /// element itself and its descendants, that has the identifier of the
    /// patch. Where there is none, nothing changes and the patch comes back.
    fn apply_first(&mut self, patch: Patch) -> (unused: Option<Patch>)
        ensures
            final(self)@ == old(self)@.apply(patch@),
            match unused {
                Some(same) => same == patch && old(self)@.find(patch@.id()) is None,
                None => old(self)@.find(patch@.id()) is Some,
            },
        decreases *old(self),
    {
        if self.has_id(patch.id()) {
            self.write(patch);
            return None;
        }
        proof {
            self.lemma_view();
        }
        let ghost views = self@.children;
        let mut carried = patch;
        let mut i: usize = 0;
        while i < self.children.len()
            invariant
                i <= self.children.len(),
                carried == patch,
                self@ == old(self)@,
                self@.id() != Some(patch@.id()),
                views == self@.children,
                views == elements_view(self.children@),
                self.children@.len() == old(self).children@.len(),
                forall|j: int|
                    i <= j < self.children@.len() ==> self.children@[j] == old(self).children@[j],
                forall|j: int| 0 <= j < i ==> (#[trigger] views[j]).find(patch@.id()) is None,
            decreases self.children.len() - i,
        {
            let ghost before = *self;
            proof {
                assert(decreases_to!(old(self).children => old(self).children[i as int]));
            }
            match self.children[i].apply_first(carried) {
                None => {
                    proof {
                        lemma_apply_in_at(views, patch@, i as int);
                        before.lemma_view();
                        self.lemma_view();
                        assert(self@.children =~= views.update(
                            i as int,
                            views[i as int].apply(patch@),
                        ));
                    }
                    return None;
                },
                Some(same) => {
                    carried = same;
                    proof {
                        lemma_apply_absent(views[i as int], patch@);
                        before.lemma_view();
                        self.lemma_view();
                        assert(self@.children =~= views);
                    }
                },
            }
            i += 1;
        }
        proof {
            lemma_find_in_absent(views, patch@.id());
            lemma_apply_absent(old(self)@, patch@);
        }
        Some(carried)
    }

    /// Applies a patch to the first element in document order, among the
    /// element itself and its descendants, that has the identifier of the
    /// patch, and says whether there was one. A patch whose identifier no
    /// element has is skipped.
    pub fn apply(&mut self, patch: Patch) -> (applied: bool)
        ensures
            final(self)@ == old(self)@.apply(patch@),
            applied == old(self)@.find(patch@.id()) is Some,
    {
        self.apply_first(patch).is_none()
    }

    /// The tag of the element.
    pub fn tag_name(&self) -> (tag: &str)
        ensures
            tag@ == self@.tag,
    {
        self.tag.as_str()
    }

    /// The value of the attribute `name`.
    pub fn get_attribute(&self, name: &str) -> (value: Option<&str>)
        ensures
            match value {
                Some(text) => self@.attribute(name@) == Some(text@),
                None => self@.attribute(name@) is None,
            },
    {
        match lookup_pair(&self.attributes, name) {
            Some(text) => Some(text.as_str()),
            None => None,
        }
    }

    /// The value of the inline style `property`.
    pub fn get_style_property(&self, property: &str) -> (value: Option<&str>)
        ensures
            match value {
                Some(text) => self@.style(property@) == Some(text@),
                None => self@.style(property@) is None,
            },
    {
        match lookup_pair(&self.styles, property) {
            Some(text) => Some(text.as_str()),
            None => None,
        }
    }

    /// The text of the element.
    pub fn text_content(&self) -> (text: Option<&str>)
        ensures
            match text {
                Some(content) => self@.text == Some(content@),
                None => self@.text is None,
            },
    {
        match &self.text {
            Some(content) => Some(content.as_str()),
            None => None,
        }
    }

    /// The attributes of the element, in the order in which they were first
    /// set.
    pub fn attributes(&self) -> (pairs: &Vec<(String, String)>)
        ensures
            pairs_view(pairs@) == self@.attributes,
    {
        &self.attributes
    }

    /// The inline styles of the element, in the order in which they were
    /// first set.
    pub fn styles(&self) -> (pairs: &Vec<(String, String)>)
        ensures
            pairs_view(pairs@) == self@.styles,
    {
        &self.styles
    }

    /// The listeners of the element, in the order in which they were bound.
    pub fn listeners(&self) -> (listeners: &Vec<(String, Handler)>)
        ensures
            listeners_view(listeners@) == self@.listeners,
    {
        &self.listeners
    }

    /// The child elements, in document order.
    pub fn children(&self) -> (children: &Vec<Element>)
        ensures
            elements_view(children@) == self@.children,
    {
        proof {
            self.lemma_view();
        }
        &self.children
    }
}

/// Gives `name` the value `value` in a list of pairs.
fn assign_pair(pairs: &mut Vec<(String, String)>, name: String, value: String)
    ensures
        pairs_view(final(pairs)@) == assign(pairs_view(old(pairs)@), name@, value@),
{
    let mut i: usize = 0;
    while i < pairs.len()
        invariant
            i <= pairs.len(),
            *pairs == *old(pairs),
            forall|j: int| 0 <= j < i ==> (#[trigger] pairs_view(pairs@)[j]).0 != name@,
        decreases pairs.len() - i,
    {
        if str_eq(pairs[i].0.as_str(), name.as_str()) {
            proof {
                lemma_assign_at(pairs_view(pairs@), name@, value@, i as int);
            }
            pairs.set(i, (name, value));
            assert(pairs_view(pairs@) =~= pairs_view(old(pairs)@).update(
                i as int,
                (name@, value@),
            ));
            return ;
        }
        i += 1;
    }
    proof {
        lemma_assign_absent(pairs_view(pairs@), name@, value@);
    }
    pairs.push((name, value));
    assert(pairs_view(pairs@) =~= pairs_view(old(pairs)@).push((name@, value@)));
}

/// Reads the value of `name` in a list of pairs.
fn lookup_pair<'a>(pairs: &'a Vec<(String, String)>, name: &str) -> (value: Option<&'a String>)
    ensures
        match value {
            Some(text) => lookup(pairs_view(pairs@), name@) == Some(text@),
            None => lookup(pairs_view(pairs@), name@) is None,
        },
{
    let mut i: usize = 0;
    while i < pairs.len()
        invariant
            i <= pairs.len(),
            forall|j: int| 0 <= j < i ==> (#[trigger] pairs_view(pairs@)[j]).0 != name@,
        decreases pairs.len() - i,
    {
        if str_eq(pairs[i].0.as_str(), name) {
            proof {
                lemma_assign_at(pairs_view(pairs@), name@, name@, i as int);
            }
            return Some(&pairs[i].1);
        }
        i += 1;
    }
    proof {
        lemma_assign_absent(pairs_view(pairs@), name@, name@);
    }
    None
}

/// Whether `name` is accepted as the name of a tag or of an attribute.
pub fn is_valid_name(name: &str) -> (valid: bool)
    ensures
        valid == valid_name(name@),
{
    let mut first = true;
    let mut valid = true;
    for c in it: name.chars()
        invariant
            it.seq() == name@,
            first == (it.index() == 0),
            valid == ((it.index() > 0 ==> name_start(name@[0])) && forall|i: int|
                0 <= i < it.index() ==> name_char(#[trigger] name@[i])),
    {
        let lower = 'a' <= c && c <= 'z';
        let upper = 'A' <= c && c <= 'Z';
        let start = lower || upper || c == '_';
        let inner = start || ('0' <= c && c <= '9') || c == '-';
        if first {
            valid = valid && start;
        } else {
            valid = valid && inner;
        }
        first = false;
    }
    valid && !first
}

} // verus!

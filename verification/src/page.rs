//! Laws of patches: what it means to apply them one after the other, when
//! a patch applied twice is a patch applied once, when a later write undoes
//! an earlier one, when two patches can change places, and which listeners
//! are on the page after content was replaced.

use vstd::prelude::*;
use crate::dom::{
    apply_in, find_in, lemma_apply_in_absent, lemma_apply_in_at, lemma_assign_twice,
    lemma_find_in_absent, lemma_lookup_assign, patches_view, Element, ElementView, Patch,
    PatchView,
};

verus! {

impl PatchView {
    /// Whether the patch leaves the children of its element as they are.
    pub open spec fn keeps_children(self) -> bool {
        !(self is ReplaceContent)
    }
}

impl ElementView {
    /// The element after the patches are applied one after the other.
    pub open spec fn apply_all(self, patches: Seq<PatchView>) -> ElementView
        decreases patches.len(),
    {
        if patches.len() == 0 {
            self
        } else {
            self.apply_all(patches.drop_last()).apply(patches.last())
        }
    }
}

impl Element {
    /// Applies the patches one after the other, each to the first element
    /// in document order that has its identifier at that time. Patches
    /// whose identifier no element has are skipped.
    pub fn apply_all(&mut self, patches: Vec<Patch>)
        ensures
            final(self)@ == old(self)@.apply_all(patches_view(patches@)),
    {
        let ghost views = patches_view(patches@);
        let ghost given = patches;
        assert(views.take(0) =~= Seq::empty());
        for patch in it: patches
            invariant
                it.seq() == given@,
                views == patches_view(given@),
                self@ == old(self)@.apply_all(views.take(it.index() as int)),
        {
            let ghost i = it.index() as int;
            proof {
                assert(views.take(i + 1).drop_last() =~= views.take(i));
                assert(views.take(i + 1).last() == patch@);
            }
            self.apply(patch);
        }
        assert(views.take(views.len() as int) =~= views);
    }
}

/// No patch changes the identifier of the element that it writes to.
pub proof fn lemma_write_keeps_id(element: ElementView, patch: PatchView)
    ensures
        patch.write(element).id() == element.id(),
{
    reveal_strlit("class");
    reveal_strlit("id");
    assert("class"@.len() != "id"@.len());
    lemma_lookup_assign(
        element.attributes,
        "class"@,
        match patch {
            PatchView::SetClass { class_name, .. } => class_name,
            _ => Seq::empty(),
        },
        "id"@,
    );
}

/// Writing a patch twice is writing it once.
pub proof fn lemma_write_twice(element: ElementView, patch: PatchView)
    ensures
        patch.write(patch.write(element)) == patch.write(element),
{
    match patch {
        PatchView::SetText { .. } => {},
        PatchView::SetClass { class_name, .. } => {
            lemma_assign_twice(element.attributes, "class"@, class_name, class_name);
        },
        PatchView::SetStyle { property, value, .. } => {
            lemma_assign_twice(element.styles, property, value, value);
        },
        PatchView::ReplaceContent { children, .. } => {
            assert(Seq::<ElementView>::empty() + children =~= children);
        },
    }
}

/// A patch whose identifier is found is written to the element that was
/// found, and that element is found again afterwards.
pub proof fn lemma_find_after_apply(element: ElementView, patch: PatchView)
    requires
        element.find(patch.id()) is Some,
    ensures
        element.apply(patch).find(patch.id()) == Some(patch.write(element.find(patch.id())->0)),
    decreases element, 1nat,
{
    if element.id() == Some(patch.id()) {
        lemma_write_keeps_id(element, patch);
    } else {
        lemma_find_in_after_apply(element.children, patch);
    }
}

/// The same for a list of elements.
pub proof fn lemma_find_in_after_apply(elements: Seq<ElementView>, patch: PatchView)
    requires
        find_in(elements, patch.id()) is Some,
    ensures
        find_in(apply_in(elements, patch), patch.id()) == Some(
            patch.write(find_in(elements, patch.id())->0),
        ),
    decreases elements, 0nat,
{
    if elements[0].find(patch.id()) is Some {
        lemma_find_after_apply(elements[0], patch);
        assert(elements.update(0, elements[0].apply(patch)).drop_first()
            =~= elements.drop_first());
    } else {
        let rest = apply_in(elements.drop_first(), patch);
        lemma_find_in_after_apply(elements.drop_first(), patch);
        assert((seq![elements[0]] + rest).drop_first() =~= rest);
    }
}

/// Applying a patch twice is applying it once, on every page.
pub proof fn lemma_apply_twice(element: ElementView, patch: PatchView)
    ensures
        element.apply(patch).apply(patch) == element.apply(patch),
    decreases element, 1nat,
{
    if element.id() == Some(patch.id()) {
        lemma_write_keeps_id(element, patch);
        lemma_write_twice(element, patch);
    } else {
        lemma_apply_in_twice(element.children, patch);
    }
}

/// The same for a list of elements.
pub proof fn lemma_apply_in_twice(elements: Seq<ElementView>, patch: PatchView)
    ensures
        apply_in(apply_in(elements, patch), patch) == apply_in(elements, patch),
    decreases elements, 0nat,
{
    if elements.len() > 0 {
        if elements[0].find(patch.id()) is Some {
            lemma_find_after_apply(elements[0], patch);
            lemma_apply_twice(elements[0], patch);
            let once = elements.update(0, elements[0].apply(patch));
            assert(once.update(0, once[0].apply(patch)) =~= once);
        } else {
            let rest = apply_in(elements.drop_first(), patch);
            lemma_apply_in_twice(elements.drop_first(), patch);
            assert((seq![elements[0]] + rest).drop_first() =~= rest);
        }
    }
}

impl PatchView {
    /// Whether the patch writes to the same place as `earlier`: both are
    /// addressed to the same identifier and set the same thing, the text,
    /// the class, the same property of the style, or the content.
    pub open spec fn overwrites(self, earlier: PatchView) -> bool {
        &&& self.id() == earlier.id()
        &&& match (self, earlier) {
            (PatchView::SetText { .. }, PatchView::SetText { .. }) => true,
            (PatchView::SetClass { .. }, PatchView::SetClass { .. }) => true,
            (
                PatchView::SetStyle { property: later, .. },
                PatchView::SetStyle { property: before, .. },
            ) => later == before,
            (PatchView::ReplaceContent { .. }, PatchView::ReplaceContent { .. }) => true,
            _ => false,
        }
    }
}

/// A write to the same place of an element undoes the write before it.
pub proof fn lemma_write_over(element: ElementView, earlier: PatchView, later: PatchView)
    requires
        later.overwrites(earlier),
    ensures
        later.write(earlier.write(element)) == later.write(element),
{
    match (later, earlier) {
        (PatchView::SetClass { class_name: after, .. }, PatchView::SetClass { class_name, .. }) => {
            lemma_assign_twice(element.attributes, "class"@, class_name, after);
        },
        (
            PatchView::SetStyle { property, value: after, .. },
            PatchView::SetStyle { value, .. },
        ) => {
            lemma_assign_twice(element.styles, property, value, after);
        },
        (
            PatchView::ReplaceContent { children: after, .. },
            PatchView::ReplaceContent { children, .. },
        ) => {
            assert(Seq::<ElementView>::empty() + after =~= after);
        },
        _ => {},
    }
}

/// Of two patches that write to the same place, applied one after the
/// other, only the later one shows.
pub proof fn lemma_apply_over(element: ElementView, earlier: PatchView, later: PatchView)
    requires
        later.overwrites(earlier),
    ensures
        element.apply(earlier).apply(later) == element.apply(later),
    decreases element, 1nat,
{
    if element.id() == Some(earlier.id()) {
        lemma_write_keeps_id(element, earlier);
        lemma_write_over(element, earlier, later);
    } else {
        lemma_apply_in_over(element.children, earlier, later);
    }
}

/// The same for a list of elements.
pub proof fn lemma_apply_in_over(elements: Seq<ElementView>, earlier: PatchView, later: PatchView)
    requires
        later.overwrites(earlier),
    ensures
        apply_in(apply_in(elements, earlier), later) == apply_in(elements, later),
    decreases elements, 0nat,
{
    let holder = first_holder(elements, earlier.id());
    lemma_first_holder(elements, earlier.id());
    lemma_apply_in_holder(elements, earlier);
    lemma_apply_in_holder(elements, later);
    if holder < elements.len() {
        lemma_find_after_apply(elements[holder], earlier);
        lemma_apply_over(elements[holder], earlier, later);
        let once = elements.update(holder, elements[holder].apply(earlier));
        assert forall|j: int| 0 <= j < holder implies (#[trigger] once[j]).find(
            later.id(),
        ) is None by {
            assert(elements[j].find(later.id()) is None);
        }
        lemma_first_holder_is(once, later.id(), holder);
        lemma_apply_in_holder(once, later);
        assert(once.update(holder, once[holder].apply(later)) =~= elements.update(
            holder,
            elements[holder].apply(later),
        ));
    }
}

/// The place of the first of `elements` that holds the identifier, in
/// itself or in a descendant; the number of the elements where none does.
pub open spec fn first_holder(elements: Seq<ElementView>, id: Seq<char>) -> int
    decreases elements.len(),
{
    if elements.len() == 0 {
        0
    } else if elements[0].find(id) is Some {
        0
    } else {
        1 + first_holder(elements.drop_first(), id)
    }
}

/// No element before the first holder holds the identifier, the first
/// holder does, and a search in the elements is a search in it.
pub proof fn lemma_first_holder(elements: Seq<ElementView>, id: Seq<char>)
    ensures
        0 <= first_holder(elements, id) <= elements.len(),
        forall|j: int|
            0 <= j < first_holder(elements, id) ==> (#[trigger] elements[j]).find(id) is None,
        first_holder(elements, id) < elements.len() ==> elements[first_holder(
            elements,
            id,
        )].find(id) is Some,
        find_in(elements, id) == if first_holder(elements, id) < elements.len() {
            elements[first_holder(elements, id)].find(id)
        } else {
            None
        },
    decreases elements.len(),
{
    if elements.len() > 0 && elements[0].find(id) is None {
        let rest = elements.drop_first();
        lemma_first_holder(rest, id);
        assert forall|j: int| 0 <= j < first_holder(elements, id) implies (
        #[trigger] elements[j]).find(id) is None by {
            if j > 0 {
                assert(elements[j] == rest[j - 1]);
            }
        }
    }
}

/// A place that has what the first holder has is the first holder.
pub proof fn lemma_first_holder_is(elements: Seq<ElementView>, id: Seq<char>, place: int)
    requires
        0 <= place <= elements.len(),
        forall|j: int| 0 <= j < place ==> (#[trigger] elements[j]).find(id) is None,
        place < elements.len() ==> elements[place].find(id) is Some,
    ensures
        first_holder(elements, id) == place,
{
    lemma_first_holder(elements, id);
    let holder = first_holder(elements, id);
    if holder < place {
        assert(elements[holder].find(id) is None);
    } else if holder > place {
        assert(elements[place].find(id) is None);
    }
}

/// A patch on a list of elements is a patch on the first holder of its
/// identifier.
pub proof fn lemma_apply_in_holder(elements: Seq<ElementView>, patch: PatchView)
    ensures
        apply_in(elements, patch) == if first_holder(elements, patch.id()) < elements.len() {
            elements.update(
                first_holder(elements, patch.id()),
                elements[first_holder(elements, patch.id())].apply(patch),
            )
        } else {
            elements
        },
{
    lemma_first_holder(elements, patch.id());
    let holder = first_holder(elements, patch.id());
    if holder < elements.len() {
        lemma_apply_in_at(elements, patch, holder);
    } else {
        lemma_find_in_absent(elements, patch.id());
        lemma_apply_in_absent(elements, patch);
    }
}

/// A patch that keeps the children of its element keeps, for every
/// identifier, whether the page holds it.
pub proof fn lemma_find_kept(element: ElementView, patch: PatchView, id: Seq<char>)
    requires
        patch.keeps_children(),
    ensures
        element.apply(patch).find(id) is Some <==> element.find(id) is Some,
    decreases element, 1nat,
{
    lemma_write_keeps_id(element, patch);
    if element.id() != Some(patch.id()) {
        lemma_find_in_kept(element.children, patch, id);
    }
}

/// The same for a list of elements; the first holder stays where it is.
pub proof fn lemma_find_in_kept(elements: Seq<ElementView>, patch: PatchView, id: Seq<char>)
    requires
        patch.keeps_children(),
    ensures
        apply_in(elements, patch).len() == elements.len(),
        first_holder(apply_in(elements, patch), id) == first_holder(elements, id),
        find_in(apply_in(elements, patch), id) is Some <==> find_in(elements, id) is Some,
    decreases elements, 0nat,
{
    let target = first_holder(elements, patch.id());
    let holder = first_holder(elements, id);
    lemma_apply_in_holder(elements, patch);
    lemma_first_holder(elements, id);
    lemma_first_holder(elements, patch.id());
    if target < elements.len() {
        lemma_find_kept(elements[target], patch, id);
        let after = elements.update(target, elements[target].apply(patch));
        assert forall|j: int| 0 <= j < holder implies (#[trigger] after[j]).find(id) is None by {
            assert(elements[j].find(id) is None);
        }
        lemma_first_holder_is(after, id, holder);
        lemma_first_holder(after, id);
    }
}

/// Whether no element with the identifier `container` holds an element
/// with the identifier `anchor` among its descendants.
pub open spec fn apart(element: ElementView, anchor: Seq<char>, container: Seq<char>) -> bool
    decreases element,
{
    &&& element.id() == Some(container) ==> find_in(element.children, anchor) is None
    &&& forall|i: int|
        0 <= i < element.children.len() ==> apart(
            #[trigger] element.children[i],
            anchor,
            container,
        )
}

/// A patch that keeps the children of its element keeps anchors and
/// containers apart.
pub proof fn lemma_apart_kept(
    element: ElementView,
    patch: PatchView,
    anchor: Seq<char>,
    container: Seq<char>,
)
    requires
        patch.keeps_children(),
        apart(element, anchor, container),
    ensures
        apart(element.apply(patch), anchor, container),
    decreases element,
{
    lemma_write_keeps_id(element, patch);
    if element.id() == Some(patch.id()) {
        assert(patch.write(element).children == element.children);
    } else {
        let children = element.children;
        let target = first_holder(children, patch.id());
        lemma_apply_in_holder(children, patch);
        lemma_first_holder(children, patch.id());
        lemma_find_in_kept(children, patch, anchor);
        if target < children.len() {
            assert(apart(children[target], anchor, container));
            lemma_apart_kept(children[target], patch, anchor, container);
        }
        let after = element.apply(patch);
        assert forall|i: int| 0 <= i < after.children.len() implies apart(
            #[trigger] after.children[i],
            anchor,
            container,
        ) by {
            if i != target {
                assert(after.children[i] == children[i]);
                assert(apart(children[i], anchor, container));
            }
        }
    }
}

/// Two patches that keep the children of their elements and are addressed
/// to different identifiers can be applied in either order.
pub proof fn lemma_commute_kept(element: ElementView, first: PatchView, second: PatchView)
    requires
        first.keeps_children(),
        second.keeps_children(),
        first.id() != second.id(),
    ensures
        element.apply(first).apply(second) == element.apply(second).apply(first),
    decreases element, 1nat,
{
    lemma_write_keeps_id(element, first);
    lemma_write_keeps_id(element, second);
    if element.id() == Some(first.id()) {
    } else if element.id() == Some(second.id()) {
    } else {
        lemma_commute_in_kept(element.children, first, second);
    }
}

/// The same for a list of elements.
pub proof fn lemma_commute_in_kept(elements: Seq<ElementView>, first: PatchView, second: PatchView)
    requires
        first.keeps_children(),
        second.keeps_children(),
        first.id() != second.id(),
    ensures
        apply_in(apply_in(elements, first), second) == apply_in(
            apply_in(elements, second),
            first,
        ),
    decreases elements, 0nat,
{
    let a = first_holder(elements, first.id());
    let b = first_holder(elements, second.id());
    lemma_first_holder(elements, first.id());
    lemma_first_holder(elements, second.id());
    lemma_apply_in_holder(elements, first);
    lemma_apply_in_holder(elements, second);
    lemma_find_in_kept(elements, first, second.id());
    lemma_find_in_kept(elements, second, first.id());
    lemma_apply_in_holder(apply_in(elements, first), second);
    lemma_apply_in_holder(apply_in(elements, second), first);
    if a < elements.len() && b < elements.len() && a == b {
        lemma_commute_kept(elements[a], first, second);
    }
    assert(apply_in(apply_in(elements, first), second) =~= apply_in(
        apply_in(elements, second),
        first,
    ));
}

/// Where the containers of a page hold no anchor and the new content holds
/// none either, replacing the content of a container keeps whether the
/// page holds the anchor.
pub proof fn lemma_find_survives(element: ElementView, replace: PatchView, anchor: Seq<char>)
    requires
        replace is ReplaceContent,
        anchor != replace.id(),
        find_in(replace->ReplaceContent_children, anchor) is None,
        apart(element, anchor, replace.id()),
    ensures
        element.apply(replace).find(anchor) is Some <==> element.find(anchor) is Some,
    decreases element, 1nat,
{
    lemma_write_keeps_id(element, replace);
    if element.id() == Some(replace.id()) {
        assert(replace.write(element).children =~= replace->ReplaceContent_children);
    } else {
        lemma_find_in_survives(element.children, replace, anchor);
    }
}

/// The same for a list of elements; the first holder stays where it is.
pub proof fn lemma_find_in_survives(
    elements: Seq<ElementView>,
    replace: PatchView,
    anchor: Seq<char>,
)
    requires
        replace is ReplaceContent,
        anchor != replace.id(),
        find_in(replace->ReplaceContent_children, anchor) is None,
        forall|i: int|
            0 <= i < elements.len() ==> apart(#[trigger] elements[i], anchor, replace.id()),
    ensures
        apply_in(elements, replace).len() == elements.len(),
        first_holder(apply_in(elements, replace), anchor) == first_holder(elements, anchor),
        find_in(apply_in(elements, replace), anchor) is Some <==> find_in(
            elements,
            anchor,
        ) is Some,
    decreases elements, 0nat,
{
    let target = first_holder(elements, replace.id());
    let holder = first_holder(elements, anchor);
    lemma_apply_in_holder(elements, replace);
    lemma_first_holder(elements, anchor);
    lemma_first_holder(elements, replace.id());
    if target < elements.len() {
        assert(apart(elements[target], anchor, replace.id()));
        lemma_find_survives(elements[target], replace, anchor);
        let after = elements.update(target, elements[target].apply(replace));
        assert forall|j: int| 0 <= j < holder implies (#[trigger] after[j]).find(
            anchor,
        ) is None by {
            assert(elements[j].find(anchor) is None);
        }
        lemma_first_holder_is(after, anchor, holder);
        lemma_first_holder(after, anchor);
    }
}

/// A patch that keeps the children of its element and a replacement of
/// content can be applied in either order, where the containers of the
/// page hold no element with the identifier of the patch and the new
/// content holds none either.
pub proof fn lemma_commute_replace(element: ElementView, patch: PatchView, replace: PatchView)
    requires
        patch.keeps_children(),
        replace is ReplaceContent,
        patch.id() != replace.id(),
        find_in(replace->ReplaceContent_children, patch.id()) is None,
        apart(element, patch.id(), replace.id()),
    ensures
        element.apply(patch).apply(replace) == element.apply(replace).apply(patch),
    decreases element, 1nat,
{
    lemma_write_keeps_id(element, patch);
    lemma_write_keeps_id(element, replace);
    if element.id() == Some(replace.id()) {
        lemma_apply_in_absent(element.children, patch);
        assert(replace.write(element).children =~= replace->ReplaceContent_children);
        lemma_apply_in_absent(replace.write(element).children, patch);
    } else if element.id() == Some(patch.id()) {
    } else {
        lemma_commute_in_replace(element.children, patch, replace);
    }
}

/// The same for a list of elements.
pub proof fn lemma_commute_in_replace(
    elements: Seq<ElementView>,
    patch: PatchView,
    replace: PatchView,
)
    requires
        patch.keeps_children(),
        replace is ReplaceContent,
        patch.id() != replace.id(),
        find_in(replace->ReplaceContent_children, patch.id()) is None,
        forall|i: int|
            0 <= i < elements.len() ==> apart(#[trigger] elements[i], patch.id(), replace.id()),
    ensures
        apply_in(apply_in(elements, patch), replace) == apply_in(
            apply_in(elements, replace),
            patch,
        ),
    decreases elements, 0nat,
{
    let a = first_holder(elements, patch.id());
    let b = first_holder(elements, replace.id());
    lemma_first_holder(elements, patch.id());
    lemma_first_holder(elements, replace.id());
    lemma_apply_in_holder(elements, patch);
    lemma_apply_in_holder(elements, replace);
    lemma_find_in_kept(elements, patch, replace.id());
    lemma_find_in_survives(elements, replace, patch.id());
    lemma_apply_in_holder(apply_in(elements, patch), replace);
    lemma_apply_in_holder(apply_in(elements, replace), patch);
    if a < elements.len() && b < elements.len() && a == b {
        assert(apart(elements[a], patch.id(), replace.id()));
        lemma_commute_replace(elements[a], patch, replace);
    }
    assert(apply_in(apply_in(elements, patch), replace) =~= apply_in(
        apply_in(elements, replace),
        patch,
    ));
}

/// A page that holds no container keeps every anchor apart from
/// containers.
pub proof fn lemma_absent_apart(element: ElementView, anchor: Seq<char>, container: Seq<char>)
    requires
        element.find(container) is None,
    ensures
        apart(element, anchor, container),
    decreases element,
{
    lemma_first_holder(element.children, container);
    assert forall|i: int| 0 <= i < element.children.len() implies apart(
        #[trigger] element.children[i],
        anchor,
        container,
    ) by {
        lemma_absent_apart(element.children[i], anchor, container);
    }
}

/// Whether neither the element nor any of its descendants has an
/// identifier.
pub open spec fn without_ids(element: ElementView) -> bool
    decreases element,
{
    &&& element.id() is None
    &&& forall|i: int|
        0 <= i < element.children.len() ==> without_ids(#[trigger] element.children[i])
}

/// No identifier is found in an element without identifiers.
pub proof fn lemma_without_ids(element: ElementView, id: Seq<char>)
    requires
        without_ids(element),
    ensures
        element.find(id) is None,
    decreases element,
{
    assert forall|i: int| 0 <= i < element.children.len() implies (
    #[trigger] element.children[i]).find(id) is None by {
        lemma_without_ids(element.children[i], id);
    }
    lemma_find_in_absent(element.children, id);
}

/// Replacing the content of an element by content that does not hold an
/// identifier does not bring that identifier on the page.
pub proof fn lemma_find_not_added(element: ElementView, replace: PatchView, id: Seq<char>)
    requires
        replace is ReplaceContent,
        find_in(replace->ReplaceContent_children, id) is None,
        element.find(id) is None,
    ensures
        element.apply(replace).find(id) is None,
    decreases element, 1nat,
{
    lemma_write_keeps_id(element, replace);
    if element.id() == Some(replace.id()) {
        assert(replace.write(element).children =~= replace->ReplaceContent_children);
    } else {
        lemma_find_in_not_added(element.children, replace, id);
    }
}

/// The same for a list of elements.
pub proof fn lemma_find_in_not_added(elements: Seq<ElementView>, replace: PatchView, id: Seq<char>)
    requires
        replace is ReplaceContent,
        find_in(replace->ReplaceContent_children, id) is None,
        find_in(elements, id) is None,
    ensures
        find_in(apply_in(elements, replace), id) is None,
    decreases elements, 0nat,
{
    let target = first_holder(elements, replace.id());
    lemma_apply_in_holder(elements, replace);
    lemma_first_holder(elements, replace.id());
    lemma_first_holder(elements, id);
    if target < elements.len() {
        lemma_find_not_added(elements[target], replace, id);
        let after = elements.update(target, elements[target].apply(replace));
        assert forall|j: int| 0 <= j < after.len() implies (#[trigger] after[j]).find(
            id,
        ) is None by {
            assert(elements[j].find(id) is None);
        }
        lemma_find_in_absent(after, id);
    }
}

/// Replacing the content of an element keeps anchors and containers apart,
/// where the new content does not hold the anchor and keeps the two apart
/// within itself.
pub proof fn lemma_apart_replaced(
    element: ElementView,
    replace: PatchView,
    anchor: Seq<char>,
    container: Seq<char>,
)
    requires
        replace is ReplaceContent,
        find_in(replace->ReplaceContent_children, anchor) is None,
        forall|i: int|
            0 <= i < replace->ReplaceContent_children.len() ==> apart(
                #[trigger] replace->ReplaceContent_children[i],
                anchor,
                container,
            ),
        apart(element, anchor, container),
    ensures
        apart(element.apply(replace), anchor, container),
    decreases element,
{
    lemma_write_keeps_id(element, replace);
    let after = element.apply(replace);
    if element.id() == Some(replace.id()) {
        assert(after.children =~= replace->ReplaceContent_children);
    } else {
        let children = element.children;
        let target = first_holder(children, replace.id());
        lemma_apply_in_holder(children, replace);
        lemma_first_holder(children, replace.id());
        if element.id() == Some(container) {
            lemma_find_in_not_added(children, replace, anchor);
        }
        if target < children.len() {
            assert(apart(children[target], anchor, container));
            lemma_apart_replaced(children[target], replace, anchor, container);
        }
        assert forall|i: int| 0 <= i < after.children.len() implies apart(
            #[trigger] after.children[i],
            anchor,
            container,
        ) by {
            if i != target {
                assert(after.children[i] == children[i]);
                assert(apart(children[i], anchor, container));
            }
        }
    }
}

/// The number of listeners that are bound on the elements and on their
/// descendants.
pub open spec fn listeners_among(elements: Seq<ElementView>) -> nat
    decreases elements, 0nat,
{
    if elements.len() == 0 {
        0
    } else {
        listeners_in(elements[0]) + listeners_among(elements.drop_first())
    }
}

/// The number of listeners that are bound on the element and on its
/// descendants. A host keeps one callback alive for each of them, for as
/// long as the element is part of the page.
pub open spec fn listeners_in(element: ElementView) -> nat
    decreases element, 1nat,
{
    element.listeners.len() + listeners_among(element.children)
}

/// Elements that each hold the same number of listeners hold that number
/// times their own number together.
pub proof fn lemma_listeners_among_each(elements: Seq<ElementView>, each: nat)
    requires
        forall|i: int| 0 <= i < elements.len() ==> listeners_in(#[trigger] elements[i]) == each,
    ensures
        listeners_among(elements) == each * elements.len(),
    decreases elements.len(),
{
    if elements.len() > 0 {
        let rest = elements.drop_first();
        assert forall|i: int| 0 <= i < rest.len() implies listeners_in(#[trigger] rest[i])
            == each by {
            assert(rest[i] == elements[i + 1]);
        }
        lemma_listeners_among_each(rest, each);
        assert(listeners_in(elements[0]) == each);
        assert(each * elements.len() == each + each * rest.len()) by (nonlinear_arith)
            requires
                elements.len() == rest.len() + 1,
        ;
    } else {
        assert(each * elements.len() == 0) by (nonlinear_arith)
            requires
                elements.len() == 0,
        ;
    }
}

/// Putting another element in a place changes the number of listeners by
/// the difference between the two elements.
pub proof fn lemma_listeners_among_update(
    elements: Seq<ElementView>,
    place: int,
    element: ElementView,
)
    requires
        0 <= place < elements.len(),
    ensures
        listeners_among(elements.update(place, element)) + listeners_in(elements[place])
            == listeners_among(elements) + listeners_in(element),
    decreases place,
{
    let after = elements.update(place, element);
    if place == 0 {
        assert(after.drop_first() =~= elements.drop_first());
    } else {
        lemma_listeners_among_update(elements.drop_first(), place - 1, element);
        assert(after.drop_first() =~= elements.drop_first().update(place - 1, element));
    }
}

/// Replacing the content of an element takes the listeners of the old
/// content off the page and puts those of the new content on it; every
/// other listener stays.
pub proof fn lemma_replace_listeners(element: ElementView, replace: PatchView)
    requires
        replace is ReplaceContent,
        element.find(replace.id()) is Some,
    ensures
        listeners_in(element.apply(replace)) + listeners_among(
            element.find(replace.id())->0.children,
        ) == listeners_in(element) + listeners_among(replace->ReplaceContent_children),
    decreases element,
{
    if element.id() == Some(replace.id()) {
        assert(replace.write(element).children =~= replace->ReplaceContent_children);
    } else {
        let children = element.children;
        let target = first_holder(children, replace.id());
        lemma_first_holder(children, replace.id());
        lemma_apply_in_holder(children, replace);
        lemma_replace_listeners(children[target], replace);
        lemma_listeners_among_update(children, target, children[target].apply(replace));
    }
}

} // verus!

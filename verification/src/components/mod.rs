//! The parts of the page.

pub mod counter;
pub mod todo;
pub mod toggle_theme;
pub mod tooltip;
pub mod visibility;

use vstd::prelude::*;
use crate::dom::valid_name;

verus! {

/// The tags and attribute names that the components use are valid names,
/// and the attribute names differ in length.
pub proof fn lemma_vocabulary()
    ensures
        valid_name("div"@),
        valid_name("button"@),
        valid_name("input"@),
        valid_name("span"@),
        valid_name("nav"@),
        valid_name("ul"@),
        valid_name("li"@),
        valid_name("section"@),
        valid_name("h1"@),
        valid_name("h2"@),
        valid_name("p"@),
        valid_name("class"@),
        valid_name("id"@),
        valid_name("type"@),
        valid_name("placeholder"@),
        valid_name("checked"@),
        "class"@.len() == 5,
        "id"@.len() == 2,
        "type"@.len() == 4,
        "placeholder"@.len() == 11,
        "checked"@.len() == 7,
{
    reveal_strlit("div");
    reveal_strlit("button");
    reveal_strlit("input");
    reveal_strlit("span");
    reveal_strlit("nav");
    reveal_strlit("ul");
    reveal_strlit("li");
    reveal_strlit("section");
    reveal_strlit("h1");
    reveal_strlit("h2");
    reveal_strlit("p");
    reveal_strlit("class");
    reveal_strlit("id");
    reveal_strlit("type");
    reveal_strlit("placeholder");
    reveal_strlit("checked");
}

} // verus!

//! A small UI runtime: a template compiler that turns a declarative
//! description of an element tree into elements, a single state container
//! with a reducer and a dispatcher, and a render pass that derives the
//! visible regions of the page from the state.
//!
//! Everything here works on plain values. The page is modelled by
//! [`dom::Element`]. What has to reach the browser is handed out as a list
//! of [`dom::Patch`] values that the host replays on the document, and what
//! has to come from the browser, the text of an input, the answer to a
//! request, is taken as an argument.
//!
//! - [`rsx`] is the template compiler.
//! - [`state`] holds the state, the reducer, the state container and the
//!   dispatcher, with the laws of the reducer.
//! - [`render`] is the render pass and the pages of the application;
//!   [`components`] are its parts.
//! - [`page`] and [`regions`] hold the laws of patches and of the render
//!   pass.
//! - [`router`], [`theme`], [`content_loader`], [`xhr`] and [`json`] are the
//!   collaborators of the render pass.

pub mod components;
pub mod content_loader;
pub mod dom;
pub mod json;
pub mod page;
pub mod regions;
pub mod render;
pub mod router;
pub mod rsx;
pub mod state;
pub mod theme;
pub mod utils;
pub mod xhr;

use vstd::prelude::*;
use dom::Handler;
use state::actions::Action;

verus! {

/// The handler that dispatches `action`, whatever the event that fires it.
pub fn action_handler(action: Action) -> (handler: Handler)
    ensures
        handler == Handler::Dispatch(action),
{
    Handler::Dispatch(action)
}

} // verus!

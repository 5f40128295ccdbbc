//! The themes and the provider that shows the theme on the root element.

use vstd::prelude::*;
use vstd::string::StringExecFns;
use crate::dom::Element;
use crate::utils::owned;

verus! {

/// The two colour schemes of the page.
#[derive(Copy, Clone, Debug, PartialEq, Eq, Structural)]
pub enum Theme {
    Light,
    Dark,
}

impl Theme {
    /// The canonical class string of the theme.
    pub open spec fn class_name(self) -> Seq<char> {
        match self {
            Theme::Light => "theme-light"@,
            Theme::Dark => "theme-dark"@,
        }
    }

    /// The other theme.
    pub open spec fn toggled(self) -> Theme {
        match self {
            Theme::Light => Theme::Dark,
            Theme::Dark => Theme::Light,
        }
    }

    /// The canonical class string of the theme.
    pub fn to_str(&self) -> (class: &'static str)
        ensures
            class@ == self.class_name(),
    {
        match self {
            Theme::Light => "theme-light",
            Theme::Dark => "theme-dark",
        }
    }
}

impl Default for Theme {
    fn default() -> (theme: Theme)
        ensures
            theme == Theme::Light,
    {
        Theme::Light
    }
}

/// Keeps the theme that is shown on the root element of the page.
#[derive(Copy, Clone, Debug, PartialEq, Eq)]
pub struct ThemeProvider {
    current_theme: Theme,
}

impl View for ThemeProvider {
    type V = Theme;

    closed spec fn view(&self) -> Theme {
        self.current_theme
    }
}

impl ThemeProvider {
    /// The class string that the provider gives the root element for a
    /// theme: the container class, then the class of the theme.
    pub open spec fn root_class(theme: Theme) -> Seq<char> {
        "app-container "@ + theme.class_name()
    }

    /// A provider of the light theme.
    pub fn new() -> (provider: ThemeProvider)
        ensures
            provider@ == Theme::Light,
    {
        ThemeProvider { current_theme: Theme::Light }
    }

    /// Changes to the other theme.
    pub fn toggle_theme(&mut self)
        ensures
            final(self)@ == old(self)@.toggled(),
    {
        self.current_theme =
        match self.current_theme {
            Theme::Light => Theme::Dark,
            Theme::Dark => Theme::Light,
        };
    }

    /// The class string for the root element.
    pub fn class_name(&self) -> (class_name: String)
        ensures
            class_name@ == Self::root_class(self@),
    {
        let mut class_name = owned("app-container ");
        class_name.append(self.current_theme.to_str());
        class_name
    }

    /// Shows the theme on an element: its class becomes the container class
    /// followed by the class of the theme.
    pub fn apply_theme_to_element(&self, element: &mut Element)
        ensures
            final(element)@ == old(element)@.set_attribute("class"@, Self::root_class(self@)),
    {
        let class_name = self.class_name();
        element.set_class_name(class_name.as_str());
    }
}

impl Default for ThemeProvider {
    fn default() -> (provider: ThemeProvider)
        ensures
            provider@ == Theme::Light,
    {
        ThemeProvider::new()
    }
}

} // verus!

//! Light and dark display themes, and how the chosen theme is stored.

use vstd::prelude::*;
use crate::text::same_text;

verus! {

/// Display theme.
#[derive(Clone, Copy, Debug, PartialEq, Eq, Structural)]
pub enum Theme {
    Light,
    Dark,
}

/// The text under which a theme is stored.
pub open spec fn theme_text(t: Theme) -> Seq<char> {
    match t {
        Theme::Light => "light"@,
        Theme::Dark => "dark"@,
    }
}

/// The theme that stored text stands for: `dark` is the dark theme and
/// every other text the light one.
pub open spec fn theme_of_text(s: Seq<char>) -> Theme {
    if s == "dark"@ {
        Theme::Dark
    } else {
        Theme::Light
    }
}

/// The other theme.
pub open spec fn other_theme(t: Theme) -> Theme {
    match t {
        Theme::Light => Theme::Dark,
        Theme::Dark => Theme::Light,
    }
}

impl Theme {
    pub fn as_str(self) -> (r: &'static str)
        ensures
            r@ == theme_text(self),
    {
        match self {
            Theme::Light => "light",
            Theme::Dark => "dark",
        }
    }

    /// The theme stored as `s`: `dark` gives the dark theme, every other
    /// text the light one.
    pub fn from_str(s: &str) -> (r: Theme)
        ensures
            r == theme_of_text(s@),
    {
        if same_text(s, "dark") {
            Theme::Dark
        } else {
            Theme::Light
        }
    }

    /// The other theme.
    pub fn toggled(self) -> (r: Theme)
        ensures
            r == other_theme(self),
    {
        match self {
            Theme::Light => Theme::Dark,
            Theme::Dark => Theme::Light,
        }
    }

    /// Label of the switch button: it names the theme it switches to.
    pub fn toggle_label(self) -> (r: &'static str)
        ensures
            self == Theme::Light ==> r@ == "🌙 โหมดมืด"@,
            self == Theme::Dark ==> r@ == "☀ โหมดสว่าง"@,
    {
        match self {
            Theme::Light => "🌙 โหมดมืด",
            Theme::Dark => "☀ โหมดสว่าง",
        }
    }
}

} // verus!

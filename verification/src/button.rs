//! The buttons of a dialog.

use vstd::prelude::*;
use crate::manager::StatusColor;
use crate::state::State;

verus! {

/// The colours of a button.
#[derive(Debug, Clone, Copy, PartialEq, Eq, Structural)]
pub struct Theme {
    pub text: StatusColor,
    pub background: StatusColor,
}

/// A button with its label.
#[derive(Debug, Clone, PartialEq, Eq)]
pub struct Button {
    pub text: String,
    pub theme: Theme,
    pub selected: bool,
    pub state: State,
}

/// The colours of the button that says yes.
pub open spec fn yes_theme() -> Theme {
    Theme { text: StatusColor::Yellow, background: StatusColor::Black }
}

/// The colours of the button that confirms.
pub open spec fn enter_theme() -> Theme {
    Theme { text: StatusColor::Green, background: StatusColor::Black }
}

impl Theme {
    /// The colours of the button that says yes, and of the one that says no.
    pub fn yes() -> (r: Theme)
        ensures
            r == yes_theme(),
    {
        Theme { text: StatusColor::Yellow, background: StatusColor::Black }
    }

    /// The colours of the button that confirms.
    pub fn enter() -> (r: Theme)
        ensures
            r == enter_theme(),
    {
        Theme { text: StatusColor::Green, background: StatusColor::Black }
    }
}

impl Button {
    /// A button that is not chosen, in the colours of the one that says yes.
    pub fn new(text: String) -> (r: Self)
        ensures
            r == (Button { text, theme: yes_theme(), selected: false, state: State::Normal }),
    {
        Button { text, theme: Theme::yes(), selected: false, state: State::Normal }
    }

    /// The button in other colours.
    pub fn theme(self, theme: Theme) -> (r: Self)
        ensures
            r == (Button { theme, ..self }),
    {
        Button { text: self.text, theme, selected: self.selected, state: self.state }
    }

    /// The button in another state.
    pub fn state(self, state: State) -> (r: Self)
        ensures
            r == (Button { state, ..self }),
    {
        Button { text: self.text, theme: self.theme, selected: self.selected, state }
    }
}

} // verus!

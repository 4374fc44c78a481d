//! The state of the application between two keys.

use vstd::prelude::*;
use crate::state::ScreenState;

verus! {

/// A key that was pressed.
#[derive(Debug, Clone, Copy, PartialEq, Eq, Structural)]
pub enum Key {
    Char(char),
    Up,
    Down,
    Left,
    Right,
    Enter,
    Esc,
    Backspace,
    /// Any other key.
    Other,
}

/// A request to change what is shown, from outside the key handling.
#[derive(Debug, PartialEq, Eq)]
pub enum UIUpdate {
    ShowPopup(String),
    SwitchScreen(ScreenState),
}

/// The state of the application.
#[derive(Debug, PartialEq, Eq)]
pub struct Home {
    pub running: bool,
    pub show_popup: bool,
    pub render_url_popup: bool,
    pub show_api_popup: bool,
    /// The button of the confirm dialog that is chosen: 0 for yes, 1 for no.
    pub selected_button: usize,
    /// What the confirm dialog is yet to be told: the button, and the answer
    /// where one was given.
    pub popup_events: Vec<(u16, Option<bool>)>,
    pub error: bool,
    pub popup_message: Option<String>,
    pub current_screen: ScreenState,
    /// Whether a connection to a peer is open.
    pub connected: bool,
}

/// `after` is `base` but for what the confirm dialog is yet to be told,
/// which is `events`.
pub open spec fn home_is(after: Home, base: Home, events: Seq<(u16, Option<bool>)>) -> bool {
    &&& after == Home { popup_events: after.popup_events, ..base }
    &&& after.popup_events@ == events
}

/// The other button of the confirm dialog.
pub open spec fn other_button(selected: usize) -> usize {
    if selected % 2 == 0 {
        1
    } else {
        0
    }
}

impl Home {
    /// The application as it starts: running, on the screen of sessions,
    /// with no popup and the second button chosen.
    pub fn new() -> (r: Self)
        ensures
            r.current_screen == ScreenState::Sessions,
            !r.error,
            !r.show_api_popup,
            r.running,
            !r.show_popup,
            !r.render_url_popup,
            r.selected_button == 1,
            r.popup_events@.len() == 0,
            r.popup_message is None,
            !r.connected,
    {
        Self {
            current_screen: ScreenState::Sessions,
            error: false,
            show_api_popup: false,
            running: true,
            show_popup: false,
            render_url_popup: false,
            selected_button: 1,
            popup_events: Vec::new(),
            popup_message: None,
            connected: false,
        }
    }

    /// Tells the confirm dialog which button is chosen and, where one was
    /// given, the answer.
    pub fn notify(&mut self, answer: Option<bool>)
        ensures
            home_is(
                *final(self),
                *old(self),
                old(self).popup_events@.push((old(self).selected_button as u16, answer)),
            ),
    {
        let button = #[verifier::truncate] (self.selected_button as u16);
        self.popup_events.push((button, answer));
    }

    /// Chooses the other button of the confirm dialog.
    pub fn toggle_button(&mut self)
        ensures
            *final(self) == (Home {
                selected_button: other_button(old(self).selected_button),
                ..*old(self)
            }),
    {
        self.selected_button = if self.selected_button % 2 == 0 {
            1
        } else {
            0
        };
    }

    /// Carries out a request to change what is shown.
    pub fn apply_update(&mut self, update: UIUpdate)
        ensures
            *final(self) == match update {
                UIUpdate::ShowPopup(message) => Home {
                    popup_message: Some(message),
                    show_popup: true,
                    ..*old(self)
                },
                UIUpdate::SwitchScreen(screen) => Home { current_screen: screen, ..*old(self) },
            },
    {
        match update {
            UIUpdate::ShowPopup(message) => {
                self.popup_message = Some(message);
                self.show_popup = true;
            },
            UIUpdate::SwitchScreen(screen) => {
                self.current_screen = screen;
            },
        }
    }

    /// Whether the task that takes uploads from the peer is to be started
    /// now: once, when a connection is open.
    pub fn spawn_upload_handler_if_needed(&self, spawned: bool) -> (r: bool)
        ensures
            r == (self.connected && !spawned),
    {
        self.connected && !spawned
    }
}

} // verus!

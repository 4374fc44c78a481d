//! What the screens hold between two draws.

use vstd::prelude::*;
use vstd::string::StringExecFns;
use crate::event::{SyncEvent, SyncTrait};
use crate::state::ConnectionState;

verus! {

/// The progress of a connection attempt, and the queue through which it is
/// reported.
#[derive(Debug, PartialEq, Eq)]
pub struct ConnectionProgress {
    pub state: ConnectionState,
    pub event: SyncEvent<ConnectionState>,
}

/// The lines of the debug screen, oldest first.
#[derive(Debug, PartialEq, Eq)]
pub struct DebugScreen {
    pub lines: Vec<String>,
}

/// The help popup.
#[derive(Debug, Clone, PartialEq, Eq)]
pub struct HelpPopup {
    pub title: String,
    pub message: String,
}

/// How grave a message is.
#[derive(Debug, Clone, Copy, PartialEq, Eq, Structural)]
pub enum ErrorType {
    Error,
    Warning,
    Info,
}

/// A message for the user, with the label of the button that dismisses it.
#[derive(Debug, PartialEq, Eq)]
pub struct ErrorWidget {
    pub message: String,
    pub level: ErrorType,
    pub title: String,
    pub button: String,
}

/// The query of an upload over HTTP.
#[derive(Debug, PartialEq, Eq)]
pub struct FileQuery {
    pub path: String,
}

impl ErrorType {
    /// The title under which a message of this kind is shown.
    pub open spec fn title(self) -> Seq<char> {
        match self {
            ErrorType::Error => " Error"@,
            ErrorType::Warning => " Warning"@,
            ErrorType::Info => " Info"@,
        }
    }

    /// The title under which a message of this kind is shown.
    pub fn to_title(self) -> (r: String)
        ensures
            r@ == self.title(),
    {
        match self {
            ErrorType::Error => String::from_str(" Error"),
            ErrorType::Warning => String::from_str(" Warning"),
            ErrorType::Info => String::from_str(" Info"),
        }
    }
}

impl ErrorWidget {
    pub fn new() -> (r: Self)
        ensures
            r.message@ == "An error occurred"@,
            r.level == ErrorType::Error,
            r.title@ == ErrorType::Error.title(),
            r.button@ == "Ok"@,
    {
        Self {
            message: String::from_str("An error occurred"),
            level: ErrorType::Error,
            title: ErrorType::Error.to_title(),
            button: String::from_str("Ok"),
        }
    }

    /// Sets the text, the kind and the button of the message.
    pub fn set_val(&mut self, message: String, level: ErrorType, button: String)
        ensures
            final(self).message == message,
            final(self).button == button,
            final(self).level == level,
            final(self).title@ == level.title(),
    {
        self.message = message;
        self.button = button;
        self.level = level;
        self.title = level.to_title();
    }
}

impl ConnectionProgress {
    /// The queue of reports that were sent and not taken up yet.
    pub open spec fn reports(&self) -> Seq<ConnectionState> {
        self.event.pending()
    }

    /// No connection and no report.
    pub fn new() -> (r: Self)
        ensures
            r.state is NoConnection,
            r.reports().len() == 0,
    {
        Self { state: ConnectionState::NoConnection, event: SyncEvent::new() }
    }

    /// Reports a state: it is shown once the reports before it were taken up.
    pub fn report(&mut self, state: ConnectionState)
        ensures
            final(self).reports() == old(self).reports().push(state),
            final(self).state == old(self).state,
    {
        self.event.send(state);
    }

    /// Takes up the oldest report, if there is one: it becomes the state.
    pub fn update(&mut self)
        ensures
            old(self).reports().len() == 0 ==> final(self).state == old(self).state && final(self).reports() == old(self).reports(),
            old(self).reports().len() > 0 ==> final(self).state == old(self).reports()[0]
                && final(self).reports() == old(self).reports().skip(1),
    {
        if let Some(new_state) = self.event.recv() {
            self.state = new_state;
        }
    }

    pub fn get_event_sender(&self) -> (r: &SyncEvent<ConnectionState>)
        ensures
            r.pending() == self.reports(),
    {
        &self.event
    }
}

impl DebugScreen {
    pub fn new() -> (r: Self)
        ensures
            r.lines@.len() == 0,
    {
        Self { lines: Vec::new() }
    }

    /// Adds a line below the others.
    pub fn push_line(&mut self, line: String)
        ensures
            final(self).lines@ == old(self).lines@.push(line),
    {
        self.lines.push(line);
    }
}

impl HelpPopup {
    pub fn new() -> (r: Self)
        ensures
            r.title@ == "Help"@,
            r.message@ == ""@,
    {
        Self { title: String::from_str("Help"), message: String::from_str("") }
    }
}

} // verus!

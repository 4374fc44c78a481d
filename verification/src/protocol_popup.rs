//! The popup that asks how to connect.

use vstd::prelude::*;
use vstd::string::StringExecFns;

verus! {

/// Which input the connection popup asks for.
#[derive(Debug, Clone, Copy, PartialEq, Eq, Structural)]
pub enum ConnectionInputMode {
    /// A port to listen on.
    Server,
    /// An address to connect to.
    Client,
}

/// The ways to connect.
#[derive(Debug, Clone, Copy, PartialEq, Eq, Structural)]
pub enum ConnectionType {
    TCP,
    P2P,
    WIFI,
}

/// The popup in which the way to connect is chosen.
#[derive(Debug, PartialEq, Eq)]
pub struct ConnectionPopup {
    pub returned_val: Option<ConnectionType>,
    pub selected: ConnectionType,
    pub visible: bool,
    pub logs: bool,
    pub input_popup: bool,
    pub mode: ConnectionInputMode,
    pub log: String,
}

impl ConnectionType {
    /// The place of the choice among the choices, from the left.
    pub open spec fn index(self) -> int {
        match self {
            ConnectionType::TCP => 0,
            ConnectionType::P2P => 1,
            ConnectionType::WIFI => 2,
        }
    }

    /// The choice at a place, if there is one.
    pub open spec fn at(index: int) -> Option<ConnectionType> {
        if index == 0 {
            Some(ConnectionType::TCP)
        } else if index == 1 {
            Some(ConnectionType::P2P)
        } else if index == 2 {
            Some(ConnectionType::WIFI)
        } else {
            None
        }
    }

    /// The choice as text.
    pub open spec fn name(self) -> Seq<char> {
        match self {
            ConnectionType::TCP => "TCP"@,
            ConnectionType::P2P => "P2P"@,
            ConnectionType::WIFI => "WIFI"@,
        }
    }

    /// The choice to the right; the rightmost stays.
    pub fn next_val(self) -> (r: Self)
        ensures
            r == match ConnectionType::at(self.index() + 1) {
                Some(next) => next,
                None => self,
            },
    {
        match self {
            ConnectionType::TCP => ConnectionType::P2P,
            ConnectionType::P2P => ConnectionType::WIFI,
            ConnectionType::WIFI => ConnectionType::WIFI,
        }
    }

    /// The choice to the left; the leftmost stays.
    pub fn previous_val(self) -> (r: Self)
        ensures
            r == match ConnectionType::at(
                if self.index() > 0 {
                    self.index() - 1
                } else {
                    0
                },
            ) {
                Some(previous) => previous,
                None => self,
            },
    {
        match self {
            ConnectionType::TCP => ConnectionType::TCP,
            ConnectionType::P2P => ConnectionType::TCP,
            ConnectionType::WIFI => ConnectionType::P2P,
        }
    }

    pub fn return_selected_type(&self) -> (r: ConnectionType)
        ensures
            r == *self,
    {
        *self
    }

    /// The choice as text, for display.
    pub fn to_text(self) -> (r: String)
        ensures
            r@ == self.name(),
    {
        match self {
            ConnectionType::TCP => String::from_str("TCP"),
            ConnectionType::P2P => String::from_str("P2P"),
            ConnectionType::WIFI => String::from_str("WIFI"),
        }
    }
}

impl ConnectionPopup {
    /// The popup as it opens: visible, with TCP chosen, asking a client.
    pub fn new() -> (r: Self)
        ensures
            r.log@.len() == 0,
            r.returned_val is None,
            !r.logs,
            !r.input_popup,
            r.selected == ConnectionType::TCP,
            r.visible,
            r.mode == ConnectionInputMode::Client,
    {
        Self {
            log: String::new(),
            returned_val: None,
            logs: false,
            input_popup: false,
            selected: ConnectionType::TCP,
            visible: true,
            mode: ConnectionInputMode::Client,
        }
    }

    pub fn previous(&mut self)
        ensures
            final(self).selected == match ConnectionType::at(
                if old(self).selected.index() > 0 {
                    old(self).selected.index() - 1
                } else {
                    0
                },
            ) {
                Some(previous) => previous,
                None => old(self).selected,
            },
            final(self).returned_val == old(self).returned_val,
            final(self).visible == old(self).visible,
            final(self).logs == old(self).logs,
            final(self).input_popup == old(self).input_popup,
            final(self).mode == old(self).mode,
            final(self).log == old(self).log,
    {
        self.selected = self.selected.previous_val();
    }

    pub fn next(&mut self)
        ensures
            final(self).selected == match ConnectionType::at(old(self).selected.index() + 1) {
                Some(next) => next,
                None => old(self).selected,
            },
            final(self).returned_val == old(self).returned_val,
            final(self).visible == old(self).visible,
            final(self).logs == old(self).logs,
            final(self).input_popup == old(self).input_popup,
            final(self).mode == old(self).mode,
            final(self).log == old(self).log,
    {
        self.selected = self.selected.next_val();
    }

    /// Confirms the choice: it is remembered and returned.
    pub fn return_selected(&mut self) -> (r: Option<ConnectionType>)
        ensures
            r == Some(old(self).selected),
            final(self).returned_val == r,
            final(self).selected == old(self).selected,
            final(self).visible == old(self).visible,
            final(self).logs == old(self).logs,
            final(self).input_popup == old(self).input_popup,
            final(self).mode == old(self).mode,
            final(self).log == old(self).log,
    {
        self.returned_val = Some(self.selected.return_selected_type());
        self.returned_val
    }
}

} // verus!

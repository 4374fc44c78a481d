//! The popup that asks which side of a transfer this host takes.

use vstd::prelude::*;
use vstd::string::StringExecFns;

verus! {

/// The side of a transfer that a host takes.
#[derive(Debug, Clone, Copy, PartialEq, Eq, Structural)]
pub enum HostType {
    SENDER,
    RECEIVER,
}

/// The popup in which the side is chosen.
#[derive(Debug, PartialEq, Eq)]
pub struct HostTypePopup {
    pub selected: HostType,
    pub visible: bool,
    pub input_popup: bool,
}

impl HostType {
    /// The place of the choice among the choices, from the left.
    pub open spec fn index(self) -> int {
        match self {
            HostType::SENDER => 0,
            HostType::RECEIVER => 1,
        }
    }

    /// The choice at a place, if there is one.
    pub open spec fn at(index: int) -> Option<HostType> {
        if index == 0 {
            Some(HostType::SENDER)
        } else if index == 1 {
            Some(HostType::RECEIVER)
        } else {
            None
        }
    }

    /// The choice as text.
    pub open spec fn name(self) -> Seq<char> {
        match self {
            HostType::SENDER => "SENDER"@,
            HostType::RECEIVER => "RECEIVER"@,
        }
    }

    /// The choice to the right; the rightmost stays.
    pub fn next_val(self) -> (r: Self)
        ensures
            r == match HostType::at(self.index() + 1) {
                Some(next) => next,
                None => self,
            },
    {
        match self {
            HostType::SENDER => HostType::RECEIVER,
            HostType::RECEIVER => HostType::RECEIVER,
        }
    }

    /// The choice to the left; the leftmost stays.
    pub fn previous_val(self) -> (r: Self)
        ensures
            r == match HostType::at(
                if self.index() > 0 {
                    self.index() - 1
                } else {
                    0
                },
            ) {
                Some(previous) => previous,
                None => self,
            },
    {
        match self {
            HostType::SENDER => HostType::SENDER,
            HostType::RECEIVER => HostType::SENDER,
        }
    }

    pub fn return_selected_type(&self) -> (r: HostType)
        ensures
            r == *self,
    {
        *self
    }

    /// The choice as text, for display.
    pub fn to_text(self) -> (r: String)
        ensures
            r@ == self.name(),
    {
        match self {
            HostType::SENDER => String::from_str("SENDER"),
            HostType::RECEIVER => String::from_str("RECEIVER"),
        }
    }
}

impl HostTypePopup {
    /// The popup as it opens: visible, with the sender chosen.
    pub fn new() -> (r: Self)
        ensures
            r.selected == HostType::SENDER,
            r.visible,
            !r.input_popup,
    {
        Self { input_popup: false, selected: HostType::SENDER, visible: true }
    }

    pub fn next(&mut self)
        ensures
            final(self).selected == match HostType::at(old(self).selected.index() + 1) {
                Some(next) => next,
                None => old(self).selected,
            },
            final(self).visible == old(self).visible,
            final(self).input_popup == old(self).input_popup,
    {
        self.selected = self.selected.next_val();
    }

    pub fn previous(&mut self)
        ensures
            final(self).selected == HostType::SENDER,
            final(self).visible == old(self).visible,
            final(self).input_popup == old(self).input_popup,
    {
        self.selected = self.selected.previous_val();
    }

    pub fn return_selected(&self) -> (r: HostType)
        ensures
            r == self.selected,
    {
        self.selected.return_selected_type()
    }
}

} // verus!

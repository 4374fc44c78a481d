//! What the application shows and how a connection fares.

use vstd::prelude::*;
use vstd::string::StringExecFns;
use crate::assoc::{distinct_keys, lemma_put_keeps_distinct, pairs, put, upsert, Entry};
use crate::strings::str_eq;

verus! {

/// The screen that is shown.
#[derive(PartialEq, Eq, PartialOrd, Ord, Debug, Clone, Copy, Structural)]
pub enum ScreenState {
    Home,
    Popup,
    Transfer,
    Connection,
    Help,
    TCP,
    Sessions,
    TcpServer,
    TcpClient,
    Debug,
}

/// How the connection fares, as it is reported for display.
#[derive(Clone, Debug, PartialEq, Eq)]
pub enum ConnectionState {
    NoConnection,
    Connecting,
    Connected,
    /// The connection failed, for this reason.
    Failed(String),
}

/// Whether a button is the chosen one.
#[derive(Debug, Clone, PartialEq, Eq, Copy, Structural)]
pub enum State {
    Normal,
    Selected,
}

/// The parts of the screen that can be switched on and off together.
#[derive(Debug, Clone, Copy, PartialEq, Eq, Structural)]
pub enum StateResetEnum {
    Home,
    HostType,
    ProtocolPopup,
    Connection,
}

impl StateResetEnum {
    /// The name under which the part is kept.
    pub open spec fn name(self) -> Seq<char> {
        match self {
            StateResetEnum::Home => "home"@,
            StateResetEnum::HostType => "host_type"@,
            StateResetEnum::ProtocolPopup => "protocol_popup"@,
            StateResetEnum::Connection => "connection"@,
        }
    }

    /// The name under which the part is kept.
    pub fn to_text(self) -> (r: String)
        ensures
            r@ == self.name(),
    {
        match self {
            StateResetEnum::Home => String::from_str("home"),
            StateResetEnum::HostType => String::from_str("host_type"),
            StateResetEnum::ProtocolPopup => String::from_str("protocol_popup"),
            StateResetEnum::Connection => String::from_str("connection"),
        }
    }
}

/// Which parts of the screen are switched on, by name.
#[derive(Debug, PartialEq, Eq)]
pub struct StateReset {
    pub screens: Vec<Entry<bool>>,
}

/// The parts after a reset: each flipped, but the one that is excepted.
pub open spec fn flipped(parts: Seq<(Seq<char>, bool)>, except: Option<&str>) -> Seq<
    (Seq<char>, bool),
> {
    Seq::new(
        parts.len(),
        |i: int|
            (
                parts[i].0,
                if is_excepted(except, parts[i].0) {
                    parts[i].1
                } else {
                    !parts[i].1
                },
            ),
    )
}

/// A reset keeps every part under its name, so names that were distinct stay
/// distinct.
pub proof fn lemma_flipped_keeps_distinct(parts: Seq<(Seq<char>, bool)>, except: Option<&str>)
    requires
        distinct_keys(parts),
    ensures
        distinct_keys(flipped(parts, except)),
{
    let after = flipped(parts, except);
    assert forall|i: int, j: int| 0 <= i < j < after.len() implies (#[trigger] after[i]).0 != (
    #[trigger] after[j]).0 by {
        assert(after[i].0 == parts[i].0);
        assert(after[j].0 == parts[j].0);
    }
}

/// Whether `name` is the part that a reset leaves alone.
pub open spec fn is_excepted(except: Option<&str>, name: Seq<char>) -> bool {
    match except {
        Some(excluded) => excluded@ == name,
        None => false,
    }
}

impl StateReset {
    /// No part is known yet.
    pub fn new() -> (r: Self)
        ensures
            r.screens@.len() == 0,
            distinct_keys(pairs(r.screens@)),
    {
        StateReset { screens: Vec::new() }
    }

    /// Flips every part but the one named in `except`.
    pub fn reset_state(&mut self, except: Option<&str>)
        ensures
            pairs(final(self).screens@) == flipped(pairs(old(self).screens@), except),
            distinct_keys(pairs(old(self).screens@)) ==> distinct_keys(
                pairs(final(self).screens@),
            ),
    {
        let ghost before = pairs(self.screens@);
        let mut i: usize = 0;
        while i < self.screens.len()
            invariant
                i <= self.screens@.len(),
                self.screens@.len() == before.len(),
                forall|k: int| i <= k < before.len() ==> #[trigger] pairs(self.screens@)[k] == before[k],
                forall|k: int|
                    0 <= k < i ==> #[trigger] pairs(self.screens@)[k] == flipped(before, except)[k],
            decreases self.screens@.len() - i,
        {
            let ghost now = pairs(self.screens@);
            assert(now[i as int] == before[i as int]);
            let excepted = match except {
                Some(excluded) => str_eq(self.screens[i].key.as_str(), excluded),
                None => false,
            };
            if !excepted {
                let turned = Entry {
                    key: self.screens[i].key.clone(),
                    value: !self.screens[i].value,
                };
                self.screens.set(i, turned);
            }
            assert forall|k: int| i < k < before.len() implies #[trigger] pairs(self.screens@)[k]
                == before[k] by {
                assert(now[k] == before[k]);
            }
            assert forall|k: int| 0 <= k < i + 1 implies #[trigger] pairs(self.screens@)[k]
                == flipped(before, except)[k] by {
                if k < i {
                    assert(now[k] == flipped(before, except)[k]);
                }
            }
            i += 1;
        }
        assert(pairs(self.screens@) =~= flipped(before, except));
        proof {
            if distinct_keys(before) {
                lemma_flipped_keeps_distinct(before, except);
            }
        }
    }

    /// Puts every part in its first state: the home screen on, the others off.
    pub fn init_state(&mut self)
        ensures
            pairs(final(self).screens@) == put(
                put(
                    put(
                        put(pairs(old(self).screens@), StateResetEnum::Home.name(), true),
                        StateResetEnum::HostType.name(),
                        false,
                    ),
                    StateResetEnum::ProtocolPopup.name(),
                    false,
                ),
                StateResetEnum::Connection.name(),
                false,
            ),
            distinct_keys(pairs(old(self).screens@)) ==> distinct_keys(
                pairs(final(self).screens@),
            ),
    {
        proof {
            let start = pairs(self.screens@);
            if distinct_keys(start) {
                let one = put(start, StateResetEnum::Home.name(), true);
                let two = put(one, StateResetEnum::HostType.name(), false);
                let three = put(two, StateResetEnum::ProtocolPopup.name(), false);
                lemma_put_keeps_distinct(start, StateResetEnum::Home.name(), true);
                lemma_put_keeps_distinct(one, StateResetEnum::HostType.name(), false);
                lemma_put_keeps_distinct(two, StateResetEnum::ProtocolPopup.name(), false);
                lemma_put_keeps_distinct(three, StateResetEnum::Connection.name(), false);
            }
        }
        upsert(&mut self.screens, StateResetEnum::Home.to_text(), true);
        upsert(&mut self.screens, StateResetEnum::HostType.to_text(), false);
        upsert(&mut self.screens, StateResetEnum::ProtocolPopup.to_text(), false);
        upsert(&mut self.screens, StateResetEnum::Connection.to_text(), false);
    }
}

} // verus!

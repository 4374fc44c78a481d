//! From a key to the handler that it belongs to.

use vstd::prelude::*;
use crate::enter::{enter_key_done, handle_enter_key, EnterAction};
use crate::home::{Home, Key};
use crate::host_type::HostTypePopup;
use crate::input::{
    backspace_key_done, char_key, d_key_done, down_key_done, esc_key_done, handle_backspace_key,
    handle_char_key, handle_d_key, handle_esc_key, handle_help_key, handle_left_key,
    handle_n_key, handle_o_key, handle_q_key, handle_right_key, help_key_done, left_key_done,
    n_key_done, q_key_done, right_key_done, up_key_done,
};
use crate::popup::{has_room, InputBox};
use crate::protocol_popup::ConnectionPopup;
use crate::screens::{ConnectionProgress, DebugScreen, ErrorWidget};
use crate::state::ScreenState;
use crate::table::TableWidget;

verus! {

/// What the keys act on, beside the application itself.
#[derive(Debug, PartialEq, Eq)]
pub struct HomeDeps {
    pub input_box: InputBox,
    pub table: TableWidget,
    pub connection: ConnectionPopup,
    pub error: ErrorWidget,
    pub host: HostTypePopup,
    pub debug_screen: DebugScreen,
    pub progress: ConnectionProgress,
}

/// What is to be done outside once a key was handled.
#[derive(Debug, PartialEq, Eq)]
pub enum KeyAction {
    /// Nothing.
    Nothing,
    /// Open the file explorer.
    OpenExplorer,
    /// What enter asked for.
    Enter(EnterAction),
}

/// What a key leads to: the handler of the key has acted on what it takes,
/// and the rest is as it was.
pub open spec fn key_done(
    key: Key,
    home_0: Home,
    home_1: Home,
    deps_0: HomeDeps,
    deps_1: HomeDeps,
    action: KeyAction,
) -> bool {
    match key {
        Key::Char('q') => {
            &&& action is Nothing
            &&& q_key_done(
                home_0,
                home_1,
                deps_0.input_box,
                deps_1.input_box,
                deps_0.connection,
                deps_1.connection,
            )
            &&& deps_1 == (HomeDeps {
                input_box: deps_1.input_box,
                connection: deps_1.connection,
                ..deps_0
            })
        },
        Key::Char('n') => {
            &&& action is Nothing
            &&& n_key_done(
                home_0,
                home_1,
                'n',
                deps_0.input_box,
                deps_1.input_box,
                deps_0.connection,
                deps_1.connection,
            )
            &&& deps_1 == (HomeDeps {
                input_box: deps_1.input_box,
                connection: deps_1.connection,
                ..deps_0
            })
        },
        Key::Char('o') => {
            &&& action == if home_0.current_screen == ScreenState::Sessions {
                KeyAction::OpenExplorer
            } else {
                KeyAction::Nothing
            }
            &&& home_1 == home_0
            &&& deps_1 == deps_0
        },
        Key::Char('?') => {
            &&& action is Nothing
            &&& home_1 == home_0
            &&& help_key_done(
                home_0,
                deps_0.table,
                deps_1.table,
                '?',
                deps_0.input_box,
                deps_1.input_box,
            )
            &&& deps_1 == (HomeDeps { input_box: deps_1.input_box, table: deps_1.table, ..deps_0 })
        },
        Key::Char(c) => {
            &&& action is Nothing
            &&& if c == 'd' {
                d_key_done(home_0, home_1, deps_0.debug_screen, deps_1.debug_screen)
            } else {
                home_1 == home_0 && deps_1.debug_screen == deps_0.debug_screen
            }
            &&& char_key(deps_0.input_box, deps_1.input_box, c)
            &&& deps_1 == (HomeDeps {
                input_box: deps_1.input_box,
                debug_screen: deps_1.debug_screen,
                ..deps_0
            })
        },
        Key::Down => {
            &&& action is Nothing
            &&& home_1 == home_0
            &&& down_key_done(TableWidget { help: false, ..deps_0.table }, TableWidget {
                help: false,
                ..deps_1.table
            })
            &&& deps_1.table.help == deps_0.table.help
            &&& deps_1 == (HomeDeps { table: deps_1.table, ..deps_0 })
        },
        Key::Up => {
            &&& action is Nothing
            &&& home_1 == home_0
            &&& up_key_done(TableWidget { help: false, ..deps_0.table }, TableWidget {
                help: false,
                ..deps_1.table
            })
            &&& deps_1.table.help == deps_0.table.help
            &&& deps_1 == (HomeDeps { table: deps_1.table, ..deps_0 })
        },
        Key::Esc => {
            &&& action is Nothing
            &&& esc_key_done(home_0, home_1, deps_0.input_box, deps_1.input_box)
            &&& deps_1 == (HomeDeps { input_box: deps_1.input_box, ..deps_0 })
        },
        Key::Right => {
            &&& action is Nothing
            &&& right_key_done(
                home_0,
                home_1,
                deps_0.input_box,
                deps_1.input_box,
                deps_0.connection,
                deps_1.connection,
                deps_0.host,
                deps_1.host,
            )
            &&& deps_1 == (HomeDeps {
                input_box: deps_1.input_box,
                connection: deps_1.connection,
                host: deps_1.host,
                ..deps_0
            })
        },
        Key::Left => {
            &&& action is Nothing
            &&& left_key_done(
                home_0,
                home_1,
                deps_0.input_box,
                deps_1.input_box,
                deps_0.connection,
                deps_1.connection,
                deps_0.host,
                deps_1.host,
            )
            &&& deps_1 == (HomeDeps {
                input_box: deps_1.input_box,
                connection: deps_1.connection,
                host: deps_1.host,
                ..deps_0
            })
        },
        Key::Enter => {
            &&& action is Enter
            &&& enter_key_done(
                home_0,
                home_1,
                deps_0.input_box,
                deps_1.input_box,
                deps_0.error,
                deps_1.error,
                deps_0.table,
                deps_1.table,
                deps_0.connection,
                deps_1.connection,
                deps_0.host,
                deps_1.host,
                deps_0.progress,
                deps_1.progress,
                action->Enter_0,
            )
            &&& deps_1.debug_screen == deps_0.debug_screen
        },
        Key::Backspace => {
            &&& action is Nothing
            &&& home_1 == home_0
            &&& backspace_key_done(deps_0.input_box, deps_1.input_box)
            &&& deps_1 == (HomeDeps { input_box: deps_1.input_box, ..deps_0 })
        },
        Key::Other => action is Nothing && home_1 == home_0 && deps_1 == deps_0,
    }
}

impl Home {
    /// Handles a key: the handler of the key acts on the state, and what is
    /// to be done outside is returned.
    pub fn handle_event(&mut self, key: Key, deps: &mut HomeDeps) -> (action: KeyAction)
        requires
            has_room(old(deps).input_box),
        ensures
            key_done(key, *old(self), *final(self), *old(deps), *final(deps), action),
    {
        match key {
            Key::Char('q') => {
                handle_q_key(self, &mut deps.input_box, &mut deps.connection);
                KeyAction::Nothing
            },
            Key::Char('n') => {
                handle_n_key(self, 'n', &mut deps.input_box, &mut deps.connection);
                KeyAction::Nothing
            },
            Key::Down => {
                deps.table.next();
                KeyAction::Nothing
            },
            Key::Up => {
                deps.table.previous();
                KeyAction::Nothing
            },
            Key::Esc => {
                handle_esc_key(self, &mut deps.input_box);
                KeyAction::Nothing
            },
            Key::Char('o') => {
                if handle_o_key(self) {
                    KeyAction::OpenExplorer
                } else {
                    KeyAction::Nothing
                }
            },
            Key::Right => {
                handle_right_key(self, &mut deps.input_box, &mut deps.connection, &mut deps.host);
                KeyAction::Nothing
            },
            Key::Left => {
                handle_left_key(self, &mut deps.input_box, &mut deps.connection, &mut deps.host);
                KeyAction::Nothing
            },
            Key::Enter => {
                let action = handle_enter_key(
                    self,
                    &mut deps.input_box,
                    &mut deps.error,
                    &mut deps.table,
                    &mut deps.connection,
                    &mut deps.host,
                    &mut deps.progress,
                );
                KeyAction::Enter(action)
            },
            Key::Char('?') => {
                handle_help_key(self, &mut deps.table, '?', &mut deps.input_box);
                KeyAction::Nothing
            },
            Key::Char(c) => {
                if c == 'd' {
                    handle_d_key(self, &mut deps.debug_screen);
                }
                handle_char_key(c, &mut deps.input_box);
                KeyAction::Nothing
            },
            Key::Backspace => {
                handle_backspace_key(&mut deps.input_box);
                KeyAction::Nothing
            },
            Key::Other => KeyAction::Nothing,
        }
    }
}

} // verus!

//! What each key does to the state of the application.

use vstd::prelude::*;
use vstd::string::StringExecFns;
use crate::home::{home_is, other_button, Home};
use crate::host_type::{HostType, HostTypePopup};
use crate::popup::{deleted, has_room, moved_left, moved_right, typed, InputBox, InputMode};
use crate::protocol_popup::{ConnectionPopup, ConnectionType};
use crate::screens::DebugScreen;
use crate::state::ScreenState;
use crate::table::TableWidget;

verus! {

/// `after` is `before` once a character key was handled: typed into a box
/// that is edited; `e` begins to edit a box that is not.
pub open spec fn char_key(before: InputBox, after: InputBox, c: char) -> bool {
    if before.input_mode == InputMode::Editing {
        typed(before, after, c)
    } else if c == 'e' {
        after == (InputBox { input_mode: InputMode::Editing, ..before })
    } else {
        after == before
    }
}

/// A character key: typed into a box that is edited; `e` begins to edit.
pub fn handle_char_key(c: char, input_box: &mut InputBox)
    requires
        has_room(*old(input_box)),
    ensures
        char_key(*old(input_box), *final(input_box), c),
{
    if input_box.input_mode == InputMode::Editing {
        input_box.enter_char(c);
    } else if c == 'e' {
        input_box.input_mode = InputMode::Editing;
    }
}

/// What the help key leads to.
pub open spec fn help_key_done(
    home: Home,
    table_0: TableWidget,
    table_1: TableWidget,
    key: char,
    input_box_0: InputBox,
    input_box_1: InputBox,
) -> bool {
    &&& table_1 == (TableWidget {
        help: if home.show_api_popup {
            table_0.help
        } else {
            !table_0.help
        },
        ..table_0
    })
    &&& char_key(input_box_0, input_box_1, key)
}

/// The help key: shows or hides the help, unless the API key is asked for,
/// and counts as a character key.
pub fn handle_help_key(home: &Home, table: &mut TableWidget, key: char, input_box: &mut InputBox)
    requires
        has_room(*old(input_box)),
    ensures
        help_key_done(*home, *old(table), *final(table), key, *old(input_box), *final(input_box)),
{
    if !home.show_api_popup {
        table.help = !table.help;
    }
    handle_char_key(key, input_box);
}

/// The screen that `q` leaves for, before the application decides whether
/// it goes on running.
pub open spec fn q_screen(home: Home, input_popup: bool) -> ScreenState {
    if home.show_api_popup || home.show_popup {
        home.current_screen
    } else if input_popup || home.current_screen == ScreenState::TcpServer {
        ScreenState::Sessions
    } else {
        home.current_screen
    }
}

/// The application after `q`.
pub open spec fn after_q(home: Home, input_popup: bool) -> Home {
    let screen = q_screen(home, input_popup);
    Home {
        show_popup: home.show_api_popup && home.show_popup,
        current_screen: if screen == ScreenState::Transfer {
            ScreenState::Sessions
        } else {
            screen
        },
        running: screen == ScreenState::Transfer && home.running,
        ..home
    }
}

/// What `q` leads to.
pub open spec fn q_key_done(
    home_0: Home,
    home_1: Home,
    input_box_0: InputBox,
    input_box_1: InputBox,
    connection_0: ConnectionPopup,
    connection_1: ConnectionPopup,
) -> bool {
    &&& home_is(
        home_1,
        after_q(home_0, connection_0.input_popup),
        if !home_0.show_api_popup && home_0.show_popup {
            home_0.popup_events@.push((home_0.selected_button as u16, Some(false)))
        } else {
            home_0.popup_events@
        },
    )
    &&& connection_1 == (ConnectionPopup {
        input_popup: connection_0.input_popup && (home_0.show_api_popup || home_0.show_popup),
        ..connection_0
    })
    &&& if home_0.show_api_popup {
        char_key(input_box_0, input_box_1, 'q')
    } else {
        input_box_1 == input_box_0
    }
}

/// `q`: typed into the box while the API key is asked for; else it answers
/// the confirm dialog with no, or closes the input of the connection popup,
/// or leaves the server screen. From the screen of transfers the application
/// goes back to the sessions; from anywhere else it stops running.
pub fn handle_q_key(home: &mut Home, input_box: &mut InputBox, connection: &mut ConnectionPopup)
    requires
        has_room(*old(input_box)),
    ensures
        q_key_done(*old(home), *final(home), *old(input_box), *final(input_box), *old(connection), *final(connection)),
{
    if home.show_api_popup {
        handle_char_key('q', input_box);
    } else if home.show_popup {
        home.notify(Some(false));
        home.show_popup = false;
    } else if connection.input_popup {
        connection.input_popup = false;
        home.current_screen = ScreenState::Sessions;
    } else if home.current_screen == ScreenState::TcpServer {
        home.current_screen = ScreenState::Sessions;
    }
    if home.current_screen == ScreenState::Transfer {
        home.current_screen = ScreenState::Sessions;
    } else {
        home.running = false;
    }
}

/// What `n` does, by the state it finds.
pub enum NKey {
    /// The key is typed into the box.
    Typed,
    /// The connection popup is closed.
    Closed,
    /// The connection popup is opened.
    Opened,
    /// Nothing more than the confirm dialog.
    Nothing,
}

pub open spec fn n_key(home: Home, input_popup: bool) -> NKey {
    if home.show_api_popup || input_popup {
        NKey::Typed
    } else if home.current_screen == ScreenState::Connection {
        NKey::Closed
    } else if home.current_screen == ScreenState::Home || home.current_screen
        == ScreenState::Sessions || home.current_screen == ScreenState::Transfer {
        NKey::Opened
    } else {
        NKey::Nothing
    }
}

/// The application after `n`.
pub open spec fn after_n(home: Home, input_popup: bool) -> Home {
    let asked = Home { show_popup: home.show_popup || !home.show_api_popup, ..home };
    match n_key(home, input_popup) {
        NKey::Typed => asked,
        NKey::Closed => Home { current_screen: ScreenState::Sessions, ..asked },
        NKey::Opened => Home {
            current_screen: ScreenState::Connection,
            render_url_popup: false,
            ..asked
        },
        NKey::Nothing => asked,
    }
}

/// What `n` leads to.
pub open spec fn n_key_done(
    home_0: Home,
    home_1: Home,
    c: char,
    input_box_0: InputBox,
    input_box_1: InputBox,
    connection_0: ConnectionPopup,
    connection_1: ConnectionPopup,
) -> bool {
    &&& home_1 == after_n(home_0, connection_0.input_popup)
    &&& connection_1 == (ConnectionPopup {
        visible: match n_key(home_0, connection_0.input_popup) {
            NKey::Closed => false,
            NKey::Opened => true,
            _ => connection_0.visible,
        },
        ..connection_0
    })
    &&& match n_key(home_0, connection_0.input_popup) {
        NKey::Typed => char_key(input_box_0, input_box_1, c),
        NKey::Opened => input_box_1 == (InputBox {
            input_mode: InputMode::Normal,
            ..input_box_0
        }),
        _ => input_box_1 == input_box_0,
    }
}

/// `n`: opens the confirm dialog unless the API key is asked for. Typed into
/// the box while a text is asked for; else it closes the connection popup
/// where it is open, and opens it from the home screen, the sessions and the
/// transfers.
pub fn handle_n_key(
    home: &mut Home,
    c: char,
    input_box: &mut InputBox,
    connection: &mut ConnectionPopup,
)
    requires
        has_room(*old(input_box)),
    ensures
        n_key_done(*old(home), *final(home), c, *old(input_box), *final(input_box), *old(connection), *final(connection)),
{
    if !home.show_api_popup && !home.show_popup {
        home.show_popup = true;
    }
    if home.show_api_popup || connection.input_popup {
        handle_char_key(c, input_box);
        return ;
    }
    if home.current_screen == ScreenState::Connection {
        connection.visible = false;
        home.current_screen = ScreenState::Sessions;
        return ;
    }
    if home.current_screen == ScreenState::Home {
        home.current_screen = ScreenState::Sessions;
    }
    if home.current_screen == ScreenState::Sessions || home.current_screen
        == ScreenState::Transfer {
        connection.visible = true;
        home.render_url_popup = false;
        input_box.input_mode = InputMode::Normal;
        home.current_screen = ScreenState::Connection;
    }
}

/// Whether escape leaves the screen rather than closing something on it.
pub open spec fn esc_leaves(screen: ScreenState) -> bool {
    screen == ScreenState::TcpServer || screen == ScreenState::TcpClient || screen
        == ScreenState::Connection || screen == ScreenState::TCP
}

/// The application after escape.
pub open spec fn after_esc(home: Home, editing: bool) -> Home {
    if esc_leaves(home.current_screen) {
        Home {
            current_screen: if home.current_screen == ScreenState::Connection {
                ScreenState::TCP
            } else {
                ScreenState::Sessions
            },
            ..home
        }
    } else if home.show_popup {
        Home { show_popup: false, ..home }
    } else if editing {
        home
    } else if home.show_api_popup {
        Home { show_api_popup: false, ..home }
    } else if home.render_url_popup {
        Home { render_url_popup: false, ..home }
    } else {
        Home { error: false, ..home }
    }
}

/// What escape leads to.
pub open spec fn esc_key_done(
    home_0: Home,
    home_1: Home,
    input_box_0: InputBox,
    input_box_1: InputBox,
) -> bool {
    &&& home_is(
        home_1,
        after_esc(home_0, input_box_0.input_mode == InputMode::Editing),
        if !esc_leaves(home_0.current_screen) && home_0.show_popup {
            home_0.popup_events@.push((home_0.selected_button as u16, Some(false)))
        } else {
            home_0.popup_events@
        },
    )
    &&& input_box_1 == (InputBox {
        input_mode: if !esc_leaves(home_0.current_screen) && !home_0.show_popup {
            InputMode::Normal
        } else {
            input_box_0.input_mode
        },
        ..input_box_0
    })
}

/// Escape: leaves the screens of the connection for the one before; on the
/// other screens it closes the topmost of what is open: the confirm dialog
/// (answered with no), the editing of the box, the popup for the API key, the
/// popup with the address, the error message.
pub fn handle_esc_key(home: &mut Home, input_box: &mut InputBox)
    ensures
        esc_key_done(*old(home), *final(home), *old(input_box), *final(input_box)),
{
    match home.current_screen {
        ScreenState::TcpServer => {
            home.current_screen = ScreenState::Sessions;
        },
        ScreenState::TcpClient => {
            home.current_screen = ScreenState::Sessions;
        },
        ScreenState::Connection => {
            home.current_screen = ScreenState::TCP;
        },
        ScreenState::TCP => {
            home.current_screen = ScreenState::Sessions;
        },
        _ => {
            if home.show_popup {
                home.notify(Some(false));
                home.show_popup = false;
            } else if input_box.input_mode == InputMode::Editing {
                input_box.input_mode = InputMode::Normal;
            } else if home.show_api_popup {
                home.show_api_popup = false;
            } else if home.render_url_popup {
                home.render_url_popup = false;
            } else if home.error {
                home.error = false;
            }
        },
    }
}

/// What an arrow key acts on.
pub enum ArrowTarget {
    /// The buttons of the confirm dialog.
    Dialog,
    /// The cursor of the box.
    Cursor,
    /// The choice of the connection popup.
    Connection,
    /// The choice of the host popup.
    Host,
    /// Nothing.
    Nothing,
}

pub open spec fn arrow_target(
    home: Home,
    input_box: InputBox,
    connection: ConnectionPopup,
    host: HostTypePopup,
) -> ArrowTarget {
    if home.show_popup {
        ArrowTarget::Dialog
    } else if input_box.input_mode == InputMode::Editing {
        ArrowTarget::Cursor
    } else if connection.visible {
        ArrowTarget::Connection
    } else if host.visible {
        ArrowTarget::Host
    } else {
        ArrowTarget::Nothing
    }
}

/// What an arrow key does to the confirm dialog: the other button is chosen
/// and the dialog is told.
pub open spec fn arrow_on_dialog(before: Home, after: Home, acts: bool) -> bool {
    if acts {
        home_is(
            after,
            Home { selected_button: other_button(before.selected_button), ..before },
            before.popup_events@.push((other_button(before.selected_button) as u16, None)),
        )
    } else {
        after == before
    }
}

/// What the arrow to the right leads to.
pub open spec fn right_key_done(
    home_0: Home,
    home_1: Home,
    input_box_0: InputBox,
    input_box_1: InputBox,
    connection_0: ConnectionPopup,
    connection_1: ConnectionPopup,
    host_0: HostTypePopup,
    host_1: HostTypePopup,
) -> bool {
    &&& arrow_on_dialog(
        home_0,
        home_1,
        arrow_target(home_0, input_box_0, connection_0, host_0)
            is Dialog,
    )
    &&& match arrow_target(home_0, input_box_0, connection_0, host_0) {
        ArrowTarget::Cursor => moved_right(input_box_0, input_box_1),
        _ => input_box_1 == input_box_0,
    }
    &&& connection_1 == (ConnectionPopup {
        selected: match arrow_target(
            home_0,
            input_box_0,
            connection_0,
            host_0,
        ) {
            ArrowTarget::Connection => match ConnectionType::at(
                connection_0.selected.index() + 1,
            ) {
                Some(next) => next,
                None => connection_0.selected,
            },
            _ => connection_0.selected,
        },
        ..connection_0
    })
    &&& host_1 == (HostTypePopup {
        selected: match arrow_target(
            home_0,
            input_box_0,
            connection_0,
            host_0,
        ) {
            ArrowTarget::Host => HostType::RECEIVER,
            _ => host_0.selected,
        },
        ..host_0
    })
}

/// The arrow to the right: the other button of the confirm dialog; else the
/// cursor of a box that is edited; else the next choice of the popup that is
/// open.
pub fn handle_right_key(
    home: &mut Home,
    input_box: &mut InputBox,
    connection: &mut ConnectionPopup,
    host: &mut HostTypePopup,
)
    ensures
        right_key_done(*old(home), *final(home), *old(input_box), *final(input_box), *old(connection), *final(connection), *old(host), *final(host)),
{
    if home.show_popup {
        home.toggle_button();
        home.notify(None);
    } else if input_box.input_mode == InputMode::Editing {
        input_box.move_cursor_right();
    } else if connection.visible {
        connection.next();
    } else if host.visible {
        host.next();
    }
}

/// What the arrow to the left leads to.
pub open spec fn left_key_done(
    home_0: Home,
    home_1: Home,
    input_box_0: InputBox,
    input_box_1: InputBox,
    connection_0: ConnectionPopup,
    connection_1: ConnectionPopup,
    host_0: HostTypePopup,
    host_1: HostTypePopup,
) -> bool {
    &&& arrow_on_dialog(
        home_0,
        home_1,
        arrow_target(home_0, input_box_0, connection_0, host_0)
            is Dialog,
    )
    &&& match arrow_target(home_0, input_box_0, connection_0, host_0) {
        ArrowTarget::Cursor => moved_left(input_box_0, input_box_1),
        _ => input_box_1 == input_box_0,
    }
    &&& connection_1 == (ConnectionPopup {
        selected: match arrow_target(
            home_0,
            input_box_0,
            connection_0,
            host_0,
        ) {
            ArrowTarget::Connection => match ConnectionType::at(
                if connection_0.selected.index() > 0 {
                    connection_0.selected.index() - 1
                } else {
                    0
                },
            ) {
                Some(previous) => previous,
                None => connection_0.selected,
            },
            _ => connection_0.selected,
        },
        ..connection_0
    })
    &&& host_1 == (HostTypePopup {
        selected: match arrow_target(
            home_0,
            input_box_0,
            connection_0,
            host_0,
        ) {
            ArrowTarget::Host => HostType::SENDER,
            _ => host_0.selected,
        },
        ..host_0
    })
}

/// The arrow to the left: the other button of the confirm dialog; else the
/// cursor of a box that is edited; else the previous choice of the popup that
/// is open.
pub fn handle_left_key(
    home: &mut Home,
    input_box: &mut InputBox,
    connection: &mut ConnectionPopup,
    host: &mut HostTypePopup,
)
    requires
        has_room(*old(input_box)),
    ensures
        left_key_done(*old(home), *final(home), *old(input_box), *final(input_box), *old(connection), *final(connection), *old(host), *final(host)),
{
    if home.show_popup {
        home.toggle_button();
        home.notify(None);
    } else if input_box.input_mode == InputMode::Editing {
        input_box.move_cursor_left();
    } else if connection.visible {
        connection.previous();
    } else if host.visible {
        host.previous();
    }
}

/// What `d` leads to.
pub open spec fn d_key_done(
    home_0: Home,
    home_1: Home,
    debug_0: DebugScreen,
    debug_1: DebugScreen,
) -> bool {
    &&& home_1 == (Home {
        current_screen: if home_0.current_screen == ScreenState::Debug {
            ScreenState::Sessions
        } else {
            ScreenState::Debug
        },
        ..home_0
    })
    &&& debug_1.lines@.len() == debug_0.lines@.len() + 1
    &&& debug_1.lines@.drop_last() == debug_0.lines@
    &&& debug_1.lines@.last()@ == if home_0.current_screen == ScreenState::Debug {
        "Leaving Debug mode"@
    } else {
        "Entering Debug mode"@
    }
}

/// `d`: enters the debug screen, or leaves it for the sessions, and notes
/// which on the debug screen.
pub fn handle_d_key(home: &mut Home, debug: &mut DebugScreen)
    ensures
        d_key_done(*old(home), *final(home), *old(debug), *final(debug)),
{
    if home.current_screen == ScreenState::Debug {
        home.current_screen = ScreenState::Sessions;
        debug.push_line(String::from_str("Leaving Debug mode"));
    } else {
        home.current_screen = ScreenState::Debug;
        debug.push_line(String::from_str("Entering Debug mode"));
    }
    assert(debug.lines@.drop_last() =~= old(debug).lines@);
}

/// What the arrow up leads to.
pub open spec fn up_key_done(
    table_0: TableWidget,
    table_1: TableWidget,
) -> bool {
    &&& if table_0.help {
        table_1 == table_0
    } else {
        let row = TableWidget::row_above(table_0.selected, table_0.items@.len());
        table_1 == (TableWidget {
            selected: Some(row as usize),
            scroll_position: TableWidget::line_of(row) as usize,
            ..table_0
        })
    }
}

/// The arrow up: the row above, unless the help is shown.
pub fn handle_up_key(table: &mut TableWidget)
    ensures
        up_key_done(*old(table), *final(table)),
{
    if !table.help {
        table.previous();
    }
}

/// What the arrow down leads to.
pub open spec fn down_key_done(
    table_0: TableWidget,
    table_1: TableWidget,
) -> bool {
    &&& if table_0.help {
        table_1 == table_0
    } else {
        let row = TableWidget::row_below(table_0.selected, table_0.items@.len());
        table_1 == (TableWidget {
            selected: Some(row as usize),
            scroll_position: TableWidget::line_of(row) as usize,
            ..table_0
        })
    }
}

/// The arrow down: the row below, unless the help is shown.
pub fn handle_down_arrow(table: &mut TableWidget)
    ensures
        down_key_done(*old(table), *final(table)),
{
    if !table.help {
        table.next();
    }
}

/// What backspace leads to.
pub open spec fn backspace_key_done(
    input_box_0: InputBox,
    input_box_1: InputBox,
) -> bool {
    &&& if input_box_0.input_mode == InputMode::Editing {
        deleted(input_box_0, input_box_1)
    } else {
        input_box_1 == input_box_0
    }
}

/// Backspace: deletes the character in front of the cursor of a box that is
/// edited.
pub fn handle_backspace_key(input_box: &mut InputBox)
    requires
        has_room(*old(input_box)),
    ensures
        backspace_key_done(*old(input_box), *final(input_box)),
{
    if input_box.input_mode == InputMode::Editing {
        input_box.delete_char();
    }
}

/// `o`: whether the file explorer is to be opened, which it is from the
/// screen of sessions.
pub fn handle_o_key(home: &Home) -> (open: bool)
    ensures
        open == (home.current_screen == ScreenState::Sessions),
{
    home.current_screen == ScreenState::Sessions
}

} // verus!

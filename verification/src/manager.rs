//! What is drawn, screen by screen.

use vstd::prelude::*;
use vstd::string::StringExecFns;
use crate::home::Home;
use crate::host_type::HostTypePopup;
use crate::protocol_popup::{ConnectionInputMode, ConnectionPopup};
use crate::state::{ConnectionState, ScreenState};
use crate::table::TableWidget;

verus! {

/// One thing to draw.
#[derive(Debug, Clone, Copy, PartialEq, Eq, Structural)]
pub enum Draw {
    /// The welcome screen.
    Welcome,
    /// The confirm dialog.
    Notification,
    /// The popup that asks for the API key.
    ApiPopup,
    /// The popup with the address at which a key is had.
    Url,
    /// The error message.
    Error,
    /// The table of sessions, with the details of the selected device.
    Sessions,
    /// The table of transfers.
    Transfers,
    /// The help.
    Help,
    /// The popup that asks how to connect.
    ConnectionPopup,
    /// The popup that asks for the side of the host.
    HostPopup,
    /// The input for a port or an address.
    Input,
    /// The debug screen.
    Debug,
}

/// The colour of a status.
#[derive(Debug, Clone, Copy, PartialEq, Eq, Structural)]
pub enum StatusColor {
    Green,
    Red,
    Yellow,
    White,
    Black,
}

/// Whether a screen is one of the connection, on which the table rests.
pub open spec fn rests_table(screen: ScreenState) -> bool {
    screen == ScreenState::Connection || screen == ScreenState::TCP || screen
        == ScreenState::TcpClient || screen == ScreenState::TcpServer
}

/// What is drawn on a screen, in order, once the configuration exists.
pub open spec fn draws(
    screen: ScreenState,
    help: bool,
    connection_visible: bool,
    host_visible: bool,
) -> Seq<Draw> {
    match screen {
        ScreenState::Sessions => if help {
            seq![Draw::Sessions, Draw::Help]
        } else {
            seq![Draw::Sessions]
        },
        ScreenState::Transfer => if help {
            seq![Draw::Transfers, Draw::Help]
        } else {
            seq![Draw::Transfers]
        },
        ScreenState::Connection => if connection_visible {
            seq![Draw::ConnectionPopup]
        } else {
            Seq::empty()
        },
        ScreenState::TCP => if host_visible {
            seq![Draw::HostPopup]
        } else {
            Seq::empty()
        },
        ScreenState::Debug => seq![Draw::Debug],
        ScreenState::TcpClient => seq![Draw::Input],
        ScreenState::TcpServer => seq![Draw::Input],
        _ => Seq::empty(),
    }
}

/// The table after a draw: it is active on the screen of sessions and rests
/// on the screens of the connection.
pub open spec fn table_after_draw(screen: ScreenState, table: TableWidget) -> TableWidget {
    TableWidget {
        active: if screen == ScreenState::Sessions {
            true
        } else if rests_table(screen) {
            false
        } else {
            table.active
        },
        ..table
    }
}

/// The connection popup after a draw: the input asks for an address on the
/// client's screen and for a port on the server's.
pub open spec fn popup_after_draw(screen: ScreenState, popup: ConnectionPopup) -> ConnectionPopup {
    ConnectionPopup {
        mode: if screen == ScreenState::TcpClient {
            ConnectionInputMode::Client
        } else if screen == ScreenState::TcpServer {
            ConnectionInputMode::Server
        } else {
            popup.mode
        },
        ..popup
    }
}

fn one(d: Draw) -> (r: Vec<Draw>)
    ensures
        r@ == seq![d],
{
    let mut v: Vec<Draw> = Vec::new();
    v.push(d);
    assert(v@ =~= seq![d]);
    v
}

fn with_help(d: Draw, help: bool) -> (r: Vec<Draw>)
    ensures
        r@ == if help {
            seq![d, Draw::Help]
        } else {
            seq![d]
        },
{
    let mut v: Vec<Draw> = Vec::new();
    v.push(d);
    if help {
        v.push(Draw::Help);
        assert(v@ =~= seq![d, Draw::Help]);
    } else {
        assert(v@ =~= seq![d]);
    }
    v
}

/// Decides what is drawn for the screen that is shown, in order, and brings
/// the table and the connection popup in line with that screen.
pub fn manage_state(
    home: &Home,
    table: &mut TableWidget,
    connection: &mut ConnectionPopup,
    host: &HostTypePopup,
) -> (r: Vec<Draw>)
    ensures
        r@ == draws(home.current_screen, old(table).help, old(connection).visible, host.visible),
        *final(table) == table_after_draw(home.current_screen, *old(table)),
        *final(connection) == popup_after_draw(home.current_screen, *old(connection)),
{
    match home.current_screen {
        ScreenState::Sessions => {
            table.active = true;
            with_help(Draw::Sessions, table.help)
        },
        ScreenState::Transfer => with_help(Draw::Transfers, table.help),
        ScreenState::Connection => {
            table.active = false;
            if connection.visible {
                one(Draw::ConnectionPopup)
            } else {
                Vec::new()
            }
        },
        ScreenState::TCP => {
            table.active = false;
            if host.visible {
                one(Draw::HostPopup)
            } else {
                Vec::new()
            }
        },
        ScreenState::Debug => one(Draw::Debug),
        ScreenState::TcpClient => {
            connection.mode = ConnectionInputMode::Client;
            table.active = false;
            one(Draw::Input)
        },
        ScreenState::TcpServer => {
            connection.mode = ConnectionInputMode::Server;
            table.active = false;
            one(Draw::Input)
        },
        _ => Vec::new(),
    }
}

/// What is drawn while there is no configuration yet: the welcome screen,
/// with what is open on top of it.
pub open spec fn welcome_draws(home: Home) -> Seq<Draw> {
    seq![Draw::Welcome] + if home.show_popup {
        seq![Draw::Notification]
    } else {
        Seq::empty()
    } + if home.show_api_popup {
        seq![Draw::ApiPopup]
    } else {
        Seq::empty()
    } + if home.render_url_popup {
        seq![Draw::Url]
    } else {
        Seq::empty()
    } + if home.error {
        seq![Draw::Error]
    } else {
        Seq::empty()
    }
}

/// What is drawn while there is no configuration yet.
pub fn welcome(home: &Home) -> (r: Vec<Draw>)
    ensures
        r@ == welcome_draws(*home),
{
    let mut v: Vec<Draw> = Vec::new();
    v.push(Draw::Welcome);
    if home.show_popup {
        v.push(Draw::Notification);
    }
    if home.show_api_popup {
        v.push(Draw::ApiPopup);
    }
    if home.render_url_popup {
        v.push(Draw::Url);
    }
    if home.error {
        v.push(Draw::Error);
    }
    assert(v@ =~= welcome_draws(*home));
    v
}

/// The status of the connection as it is shown in the corner.
pub open spec fn status_text(state: ConnectionState) -> Seq<char> {
    match state {
        ConnectionState::Connected => "CONNECTED"@,
        ConnectionState::NoConnection => "NO CONNECTION"@,
        ConnectionState::Connecting => "CONNECTING"@,
        ConnectionState::Failed(_) => "FAILED"@,
    }
}

pub open spec fn status_color(state: ConnectionState) -> StatusColor {
    match state {
        ConnectionState::Connected => StatusColor::Green,
        ConnectionState::NoConnection => StatusColor::Red,
        ConnectionState::Connecting => StatusColor::Yellow,
        ConnectionState::Failed(_) => StatusColor::Red,
    }
}

/// The status of the connection as it is shown in the corner, and its colour.
pub fn status_label(state: &ConnectionState) -> (r: (String, StatusColor))
    ensures
        r.0@ == status_text(*state),
        r.1 == status_color(*state),
{
    match state {
        ConnectionState::Connected => (String::from_str("CONNECTED"), StatusColor::Green),
        ConnectionState::NoConnection => (String::from_str("NO CONNECTION"), StatusColor::Red),
        ConnectionState::Connecting => (String::from_str("CONNECTING"), StatusColor::Yellow),
        ConnectionState::Failed(_) => (String::from_str("FAILED"), StatusColor::Red),
    }
}

/// What the popup of the connection's progress says.
pub open spec fn progress_text(state: ConnectionState) -> Seq<char> {
    match state {
        ConnectionState::Connecting => "Connecting to server..."@,
        ConnectionState::Connected => "Connection established!"@,
        ConnectionState::Failed(reason) => reason@,
        ConnectionState::NoConnection => ""@,
    }
}

pub open spec fn progress_color(state: ConnectionState) -> StatusColor {
    match state {
        ConnectionState::Connecting => StatusColor::Yellow,
        ConnectionState::Connected => StatusColor::Green,
        ConnectionState::Failed(_) => StatusColor::Red,
        ConnectionState::NoConnection => StatusColor::White,
    }
}

/// What the popup of the connection's progress says, and in which colour.
pub fn progress_message(state: &ConnectionState) -> (r: (String, StatusColor))
    ensures
        r.0@ == progress_text(*state),
        r.1 == progress_color(*state),
{
    match state {
        ConnectionState::Connecting => (
            String::from_str("Connecting to server..."),
            StatusColor::Yellow,
        ),
        ConnectionState::Connected => (
            String::from_str("Connection established!"),
            StatusColor::Green,
        ),
        ConnectionState::Failed(reason) => (reason.clone(), StatusColor::Red),
        ConnectionState::NoConnection => (String::from_str(""), StatusColor::White),
    }
}

} // verus!

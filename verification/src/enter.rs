//! The enter key: what it confirms, what it asks to be done outside, and
//! what becomes of the state once that was done.

use vstd::prelude::*;
use vstd::string::StringExecFns;
use vstd::utf8::encode_utf8;
use crate::home::{home_is, Home};
use crate::host_type::{HostType, HostTypePopup};
use crate::paths::{contains_byte, has_byte};
use crate::popup::InputBox;
use crate::protocol_popup::{ConnectionPopup, ConnectionType};
use crate::records::{Connection, Device, SessionRecord, Transfer};
use crate::screens::{ConnectionProgress, ErrorType, ErrorWidget};
use crate::server::{parse_port, port_of, PortError};
use crate::state::{ConnectionState, ScreenState};
use crate::table::{
    as_nats, first_device, reconnected, rows_of, selected_files, shares, transfer_widths, Item,
    TableWidget,
};

verus! {

/// ASCII `':'`.
pub const COLON: u8 = 58;

/// What is to be done outside once enter was handled.
#[derive(Debug, PartialEq, Eq)]
pub enum EnterAction {
    /// Nothing.
    Nothing,
    /// Listen on this port of every interface.
    Listen { port: u16 },
    /// Connect to this address.
    Connect { address: String },
    /// Write the configuration for this API key.
    CreateConfig { key: String },
}

/// What enter acts on.
pub enum EnterTarget {
    /// The confirm dialog: it is answered with yes.
    Dialog,
    /// The table: the selected device is opened.
    Table,
    /// The connection popup: the choice is confirmed.
    Connection,
    /// The host popup: the choice is confirmed.
    Host,
    /// The box, taken as a port to listen on.
    Port,
    /// The box, taken as an address to connect to.
    Address,
    /// The box, taken as an API key.
    ApiKey,
}

pub open spec fn enter_target(
    home: Home,
    table: TableWidget,
    connection: ConnectionPopup,
    host: HostTypePopup,
) -> EnterTarget {
    if home.show_popup {
        EnterTarget::Dialog
    } else if table.active {
        EnterTarget::Table
    } else if connection.visible {
        EnterTarget::Connection
    } else if host.visible {
        EnterTarget::Host
    } else if home.current_screen == ScreenState::TcpServer {
        EnterTarget::Port
    } else if home.current_screen == ScreenState::TcpClient {
        EnterTarget::Address
    } else {
        EnterTarget::ApiKey
    }
}

/// The address to connect to: what was typed, with the port 8080 where none
/// was given.
pub open spec fn address_of(input: Seq<char>) -> Seq<char> {
    if has_byte(encode_utf8(input), COLON) {
        input
    } else {
        input + ":8080"@
    }
}

/// The message that tells why an input is no port.
pub open spec fn port_message(e: PortError) -> Seq<char> {
    match e {
        PortError::OutOfRange => "Port must be between 1024 and 65535"@,
        PortError::Invalid => "Invalid port number"@,
    }
}

/// `after` shows `message` as a warning, to be dismissed with `Ok`.
pub open spec fn warns(after: ErrorWidget, message: Seq<char>) -> bool {
    &&& after.message@ == message
    &&& after.level == ErrorType::Warning
    &&& after.title@ == ErrorType::Warning.title()
    &&& after.button@ == "Ok"@
}

fn warn(error: &mut ErrorWidget, message: String)
    ensures
        warns(*final(error), message@),
{
    error.set_val(message, ErrorType::Warning, String::from_str("Ok"));
}

fn has_colon(text: &str) -> (r: bool)
    ensures
        r == has_byte(encode_utf8(text@), COLON),
{
    contains_byte(text.as_bytes(), COLON)
}

/// The address to connect to, from what was typed.
pub fn connect_address(input: String) -> (r: String)
    ensures
        r@ == address_of(input@),
{
    if has_colon(input.as_str()) {
        input
    } else {
        input.concat(":8080")
    }
}

/// The text of the box, with what scrolled out in front.
pub open spec fn message_of(input_box: InputBox) -> Seq<char> {
    input_box.removed_char@ + input_box.input@
}

/// The box after its message was handed over: empty, unless it was empty
/// and so refused.
pub open spec fn submitted(before: InputBox, after: InputBox) -> bool {
    &&& after.removed_char@ == before.removed_char@
    &&& after.input_mode == before.input_mode
    &&& after.input@.len() == 0
    &&& after.character_index == if before.input@.len() > 0 {
        0
    } else {
        before.character_index
    }
}

/// What enter does where it confirms a choice in the connection popup.
pub open spec fn confirm_connection(connection: ConnectionPopup) -> ConnectionPopup {
    if connection.selected == ConnectionType::TCP {
        ConnectionPopup {
            returned_val: Some(connection.selected),
            input_popup: true,
            visible: false,
            ..connection
        }
    } else {
        ConnectionPopup { returned_val: Some(connection.selected), ..connection }
    }
}

/// What enter does to the connection popup where it confirms the side of
/// the host.
pub open spec fn confirm_host(connection: ConnectionPopup, side: HostType) -> ConnectionPopup {
    if side == HostType::SENDER {
        ConnectionPopup { logs: true, visible: false, ..connection }
    } else {
        ConnectionPopup { input_popup: true, visible: false, ..connection }
    }
}

/// What enter leads to.
pub open spec fn enter_key_done(
    home_0: Home,
    home_1: Home,
    input_box_0: InputBox,
    input_box_1: InputBox,
    error_0: ErrorWidget,
    error_1: ErrorWidget,
    table_0: TableWidget,
    table_1: TableWidget,
    connection_0: ConnectionPopup,
    connection_1: ConnectionPopup,
    host_0: HostTypePopup,
    host_1: HostTypePopup,
    progress_0: ConnectionProgress,
    progress_1: ConnectionProgress,
    action: EnterAction,
) -> bool {
    &&& match enter_target(home_0, table_0, connection_0, host_0) {
        EnterTarget::Dialog => {
            &&& action is Nothing
            &&& home_is(
                home_1,
                Home { show_popup: false, ..home_0 },
                home_0.popup_events@.push((home_0.selected_button as u16, Some(true))),
            )
            &&& input_box_1 == input_box_0
            &&& error_1 == error_0
            &&& table_1 == table_0
            &&& connection_1 == connection_0
            &&& host_1 == host_0
            &&& progress_1 == progress_0
        },
        EnterTarget::Table => {
            &&& action is Nothing
            &&& home_1 == (Home { current_screen: ScreenState::Transfer, ..home_0 })
            &&& match selected_files(table_0) {
                Some(files) => {
                    &&& table_1.items@ == table_0.items@ + rows_of(files)
                    &&& if files.len() > 0 {
                        as_nats(table_1.longest_item_lens@) == shares(
                            transfer_widths(table_1.items@),
                        )
                    } else {
                        table_1.longest_item_lens == table_0.longest_item_lens
                    }
                },
                None => table_1 == table_0,
            }
            &&& table_1.selected == table_0.selected
            &&& table_1.scroll_position == table_0.scroll_position
            &&& table_1.help == table_0.help
            &&& table_1.connection == table_0.connection
            &&& table_1.active == table_0.active
            &&& input_box_1 == input_box_0
            &&& error_1 == error_0
            &&& connection_1 == connection_0
            &&& host_1 == host_0
            &&& progress_1 == progress_0
        },
        EnterTarget::Connection => {
            &&& action is Nothing
            &&& connection_1 == confirm_connection(connection_0)
            &&& host_1 == (HostTypePopup {
                visible: host_0.visible || connection_0.selected == ConnectionType::TCP,
                ..host_0
            })
            &&& home_1 == (Home {
                current_screen: if connection_0.selected == ConnectionType::TCP {
                    ScreenState::TCP
                } else {
                    home_0.current_screen
                },
                ..home_0
            })
            &&& input_box_1 == input_box_0
            &&& error_1 == error_0
            &&& table_1 == table_0
            &&& progress_1 == progress_0
        },
        EnterTarget::Host => {
            &&& action is Nothing
            &&& connection_1 == confirm_host(connection_0, host_0.selected)
            &&& host_1 == (HostTypePopup { visible: false, ..host_0 })
            &&& home_1 == (Home {
                current_screen: if host_0.selected == HostType::SENDER {
                    ScreenState::TcpClient
                } else {
                    ScreenState::TcpServer
                },
                ..home_0
            })
            &&& input_box_1 == input_box_0
            &&& error_1 == error_0
            &&& table_1 == table_0
            &&& progress_1 == progress_0
        },
        EnterTarget::Port => {
            &&& submitted(input_box_0, input_box_1)
            &&& table_1 == table_0
            &&& connection_1 == connection_0
            &&& host_1 == host_0
            &&& progress_1.event == progress_0.event
            &&& if input_box_0.input@.len() == 0 {
                &&& action is Nothing
                &&& home_1 == home_0
                &&& error_1 == error_0
                &&& progress_1 == progress_0
            } else {
                match port_of(encode_utf8(message_of(input_box_0))) {
                    Ok(port) => {
                        &&& action == (EnterAction::Listen { port })
                        &&& home_1 == home_0
                        &&& error_1 == error_0
                        &&& progress_1.state is Connecting
                    },
                    Err(e) => {
                        &&& action is Nothing
                        &&& home_1 == (Home { error: true, ..home_0 })
                        &&& warns(error_1, port_message(e))
                        &&& progress_1 == progress_0
                    },
                }
            }
        },
        EnterTarget::Address => {
            &&& submitted(input_box_0, input_box_1)
            &&& home_1 == home_0
            &&& error_1 == error_0
            &&& table_1 == table_0
            &&& connection_1 == connection_0
            &&& host_1 == host_0
            &&& progress_1.event == progress_0.event
            &&& if input_box_0.input@.len() == 0 {
                &&& action is Nothing
                &&& progress_1 == progress_0
            } else {
                &&& action is Connect
                &&& action->address@ == address_of(message_of(input_box_0))
                &&& progress_1.state is Connecting
            }
        },
        EnterTarget::ApiKey => {
            &&& submitted(input_box_0, input_box_1)
            &&& table_1 == table_0
            &&& progress_1 == progress_0
            &&& if input_box_0.input@.len() == 0 {
                &&& action is Nothing
                &&& warns(error_1, "API key cannot be empty"@)
                &&& home_1 == (Home {
                    error: true,
                    current_screen: ScreenState::Sessions,
                    ..home_0
                })
                &&& connection_1 == (ConnectionPopup {
                    visible: false,
                    ..connection_0
                })
                &&& host_1 == (HostTypePopup { visible: false, ..host_0 })
            } else {
                &&& action is CreateConfig
                &&& action->key@ == message_of(input_box_0)
                &&& home_1 == home_0
                &&& error_1 == error_0
                &&& connection_1 == connection_0
                &&& host_1 == host_0
            }
        },
    }
}

/// Enter. It answers the confirm dialog with yes; else it opens the device
/// that is selected in the table; else it confirms the choice of the popup
/// that is open; else it hands over the text of the box: as a port to listen
/// on, as an address to connect to or as an API key, by the screen. What is
/// to be done outside is returned; the state is brought up to date once the
/// outcome is known, by [`connection_finished`] or [`config_finished`].
pub fn handle_enter_key(
    home: &mut Home,
    input_box: &mut InputBox,
    error: &mut ErrorWidget,
    table: &mut TableWidget,
    connection: &mut ConnectionPopup,
    host: &mut HostTypePopup,
    progress: &mut ConnectionProgress,
) -> (action: EnterAction)
    ensures
        enter_key_done(*old(home), *final(home), *old(input_box), *final(input_box), *old(error), *final(error), *old(table), *final(table), *old(connection), *final(connection), *old(host), *final(host), *old(progress), *final(progress), action),
{
    if home.show_popup {
        home.notify(Some(true));
        home.show_popup = false;
        return EnterAction::Nothing;
    }
    if table.active {
        table.open_selected();
        home.current_screen = ScreenState::Transfer;
        return EnterAction::Nothing;
    }
    if connection.visible {
        let selected = connection.return_selected();
        match selected {
            Some(ConnectionType::TCP) => {
                connection.input_popup = true;
                connection.visible = false;
                host.visible = true;
                home.current_screen = ScreenState::TCP;
            },
            _ => {},
        }
        return EnterAction::Nothing;
    }
    if host.visible {
        let selected = host.return_selected();
        if selected == HostType::SENDER {
            connection.logs = true;
            connection.visible = false;
            host.visible = false;
            home.current_screen = ScreenState::TcpClient;
        } else {
            connection.input_popup = true;
            connection.visible = false;
            host.visible = false;
            home.current_screen = ScreenState::TcpServer;
        }
        return EnterAction::Nothing;
    }
    if home.current_screen == ScreenState::TcpServer {
        match input_box.submit_message() {
            Ok(user_input) => {
                match parse_port(user_input.as_str().as_bytes()) {
                    Ok(port) => {
                        progress.state = ConnectionState::Connecting;
                        return EnterAction::Listen { port };
                    },
                    Err(PortError::OutOfRange) => {
                        warn(error, String::from_str("Port must be between 1024 and 65535"));
                        home.error = true;
                    },
                    Err(PortError::Invalid) => {
                        warn(error, String::from_str("Invalid port number"));
                        home.error = true;
                    },
                }
            },
            Err(_) => {},
        }
        return EnterAction::Nothing;
    }
    if home.current_screen == ScreenState::TcpClient {
        match input_box.submit_message() {
            Ok(user_input) => {
                let address = connect_address(user_input);
                progress.state = ConnectionState::Connecting;
                return EnterAction::Connect { address };
            },
            Err(_) => {},
        }
        return EnterAction::Nothing;
    }
    match input_box.submit_message() {
        Ok(api) => EnterAction::CreateConfig { key: api },
        Err(err) => {
            warn(error, String::from_str(err));
            home.error = true;
            connection.visible = false;
            host.visible = false;
            home.current_screen = ScreenState::Sessions;
            EnterAction::Nothing
        },
    }
}

/// Which side of a connection this host took.
#[derive(Debug, Clone, Copy, PartialEq, Eq, Structural)]
pub enum Side {
    /// It listened.
    Server,
    /// It connected.
    Client,
}

/// What the failure of a connection is reported as.
pub open spec fn failure_text(side: Side, reason: Seq<char>) -> Seq<char> {
    match side {
        Side::Server => "Error opening port: "@ + reason,
        Side::Client => "Error connecting: "@ + reason,
    }
}

/// The device as which this host is shown after a connection at `now`.
pub open spec fn is_own_device(device: Device, hostname: String, ip: String, now: Seq<char>) -> bool {
    &&& device.name == hostname
    &&& device.ip == ip
    &&& device.last_transfer.status@ == "N/A"@
    &&& device.last_transfer.size@ == "N/A"@
    &&& device.last_transfer.name@ == "N/A"@
    &&& device.last_connection.total@ == now
    &&& device.last_connection.format_date@ == now
    &&& device.files is None
}

/// Brings the state up to date once listening or connecting has ended. The
/// outcome is shown as the state of the connection; this host is noted in the
/// table as connected at `now`, whatever the outcome; after listening the box
/// is emptied. A connection that stands is remembered, and the record to keep
/// of it is returned.
pub fn connection_finished(
    side: Side,
    outcome: Result<(), String>,
    hostname: String,
    ip: String,
    now: String,
    home: &mut Home,
    table: &mut TableWidget,
    progress: &mut ConnectionProgress,
    input_box: &mut InputBox,
) -> (record: Option<SessionRecord>)
    ensures
        match outcome {
            Ok(()) => {
                &&& final(progress).state is Connected
                &&& *final(home) == (Home { connected: true, ..*old(home) })
                &&& record is Some
                &&& record->Some_0.name@ == hostname@
                &&& record->Some_0.ip@ == ip@
                &&& record->Some_0.last_transfer@ == "N/A"@
                &&& record->Some_0.last_connection@ == now@
            },
            Err(reason) => {
                &&& final(progress).state is Failed
                &&& final(progress).state->Failed_0@ == failure_text(side, reason@)
                &&& *final(home) == *old(home)
                &&& record is None
            },
        },
        final(progress).event == old(progress).event,
        ({
            let at = first_device(old(table).items@, hostname@);
            if at < old(table).items@.len() {
                exists|total: String, date: String|
                    {
                        &&& total@ == now@
                        &&& date@ == now@
                        &&& final(table).items@ == old(table).items@.update(
                            at,
                            Item::Device(
                                #[trigger] reconnected(
                                    old(table).items@[at]->Device_0,
                                    ip,
                                    total,
                                    date,
                                ),
                            ),
                        )
                    }
            } else {
                &&& final(table).items@.len() == old(table).items@.len() + 1
                &&& final(table).items@.drop_last() == old(table).items@
                &&& final(table).items@.last() is Device
                &&& is_own_device(final(table).items@.last()->Device_0, hostname, ip, now@)
            }
        }),
        final(table).selected == old(table).selected,
        final(table).longest_item_lens == old(table).longest_item_lens,
        final(table).scroll_position == old(table).scroll_position,
        final(table).help == old(table).help,
        final(table).connection == old(table).connection,
        final(table).active == old(table).active,
        match side {
            Side::Server => *final(input_box) == (InputBox {
                input: final(input_box).input,
                character_index: 0,
                ..*old(input_box)
            }) && final(input_box).input@.len() == 0,
            Side::Client => *final(input_box) == *old(input_box),
        },
{
    let record = match outcome {
        Ok(()) => {
            progress.state = ConnectionState::Connected;
            home.connected = true;
            Some(
                SessionRecord {
                    name: hostname.clone(),
                    ip: ip.clone(),
                    last_transfer: String::from_str("N/A"),
                    last_connection: now.clone(),
                },
            )
        },
        Err(reason) => {
            let prefix = match side {
                Side::Server => String::from_str("Error opening port: "),
                Side::Client => String::from_str("Error connecting: "),
            };
            progress.state = ConnectionState::Failed(prefix.concat(reason.as_str()));
            None
        },
    };
    let total = now.clone();
    let device = Device {
        name: hostname,
        ip,
        last_transfer: Transfer {
            status: String::from_str("N/A"),
            size: String::from_str("N/A"),
            name: String::from_str("N/A"),
        },
        last_connection: Connection { total, format_date: now },
        files: None,
    };
    table.record_device(device);
    proof {
        let at = first_device(old(table).items@, hostname@);
        if at < old(table).items@.len() {
            assert(table.items@ == old(table).items@.update(
                at,
                Item::Device(reconnected(old(table).items@[at]->Device_0, ip, total, now)),
            ));
        } else {
            assert(table.items@.drop_last() =~= old(table).items@);
        }
    }
    match side {
        Side::Server => {
            input_box.input.clear();
            input_box.reset_cursor();
        },
        Side::Client => {},
    }
    record
}

/// Brings the state up to date once the configuration was written, or could
/// not be: the popups are closed and the sessions shown; a failure is shown
/// as a warning.
pub fn config_finished(
    outcome: Result<(), String>,
    home: &mut Home,
    error: &mut ErrorWidget,
    connection: &mut ConnectionPopup,
    host: &mut HostTypePopup,
)
    ensures
        *final(home) == (Home {
            error: old(home).error || outcome is Err,
            show_api_popup: false,
            show_popup: false,
            current_screen: ScreenState::Sessions,
            ..*old(home)
        }),
        match outcome {
            Ok(()) => *final(error) == *old(error),
            Err(reason) => warns(*final(error), reason@),
        },
        *final(connection) == (ConnectionPopup { visible: false, ..*old(connection) }),
        *final(host) == (HostTypePopup { visible: false, ..*old(host) }),
{
    match outcome {
        Ok(()) => {},
        Err(reason) => {
            warn(error, reason);
            home.error = true;
        },
    }
    connection.visible = false;
    host.visible = false;
    home.show_api_popup = false;
    home.show_popup = false;
    home.current_screen = ScreenState::Sessions;
}

} // verus!

use zync::enter::{
    config_finished, connect_address, connection_finished, handle_enter_key, EnterAction, Side,
};
use zync::events::{HomeDeps, KeyAction};
use zync::home::{Home, Key, UIUpdate};
use zync::host_type::{HostType, HostTypePopup};
use zync::input::{
    handle_backspace_key, handle_char_key, handle_d_key, handle_down_arrow, handle_esc_key,
    handle_help_key, handle_left_key, handle_n_key, handle_o_key, handle_q_key, handle_right_key,
    handle_up_key,
};
use zync::popup::{InputBox, InputMode};
use zync::protocol_popup::{ConnectionPopup, ConnectionType};
use zync::records::{Connection, Data, Device, Transfer};
use zync::screens::{ConnectionProgress, DebugScreen, ErrorType, ErrorWidget};
use zync::state::{ConnectionState, ScreenState};
use zync::table::{Item, TableWidget};

fn deps() -> HomeDeps {
    let mut connection = ConnectionPopup::new();
    connection.visible = false;
    let mut host = HostTypePopup::new();
    host.visible = false;
    HomeDeps {
        input_box: InputBox::new(),
        table: TableWidget::new(),
        connection,
        error: ErrorWidget::new(),
        host,
        debug_screen: DebugScreen::new(),
        progress: ConnectionProgress::new(),
    }
}

fn type_text(deps: &mut HomeDeps, text: &str) {
    deps.input_box.input_mode = InputMode::Editing;
    for c in text.chars() {
        deps.input_box.enter_char(c);
    }
}

#[test]
fn the_application_starts_on_the_sessions() {
    let home = Home::new();
    assert!(home.running);
    assert_eq!(home.current_screen, ScreenState::Sessions);
    assert_eq!(home.selected_button, 1);
    assert!(!home.show_popup && !home.show_api_popup && !home.render_url_popup && !home.error);
    assert!(!home.connected);
    assert_eq!(home.popup_events, vec![]);
    assert_eq!(home.popup_message, None);
}

#[test]
fn updates_from_outside_are_applied() {
    let mut home = Home::new();
    home.apply_update(UIUpdate::ShowPopup("hello".to_string()));
    assert!(home.show_popup);
    assert_eq!(home.popup_message, Some("hello".to_string()));
    home.apply_update(UIUpdate::SwitchScreen(ScreenState::Debug));
    assert_eq!(home.current_screen, ScreenState::Debug);
}

#[test]
fn the_upload_handler_is_started_once_when_connected() {
    let mut home = Home::new();
    assert!(!home.spawn_upload_handler_if_needed(false));
    home.connected = true;
    assert!(home.spawn_upload_handler_if_needed(false));
    assert!(!home.spawn_upload_handler_if_needed(true));
}

#[test]
fn e_begins_to_edit_and_characters_are_typed() {
    let mut input_box = InputBox::new();
    handle_char_key('x', &mut input_box);
    assert_eq!(input_box, InputBox::new());
    handle_char_key('e', &mut input_box);
    assert_eq!(input_box.input_mode, InputMode::Editing);
    assert_eq!(input_box.input, Vec::<char>::new());
    handle_char_key('e', &mut input_box);
    handle_char_key('x', &mut input_box);
    assert_eq!(input_box.input, vec!['e', 'x']);
    handle_backspace_key(&mut input_box);
    assert_eq!(input_box.input, vec!['e']);
    input_box.input_mode = InputMode::Normal;
    handle_backspace_key(&mut input_box);
    assert_eq!(input_box.input, vec!['e']);
}

#[test]
fn the_help_key_toggles_the_help() {
    let mut home = Home::new();
    let mut table = TableWidget::new();
    let mut input_box = InputBox::new();
    handle_help_key(&home, &mut table, '?', &mut input_box);
    assert!(table.help);
    handle_help_key(&home, &mut table, '?', &mut input_box);
    assert!(!table.help);
    home.show_api_popup = true;
    input_box.input_mode = InputMode::Editing;
    handle_help_key(&home, &mut table, '?', &mut input_box);
    assert!(!table.help);
    assert_eq!(input_box.input, vec!['?']);
}

#[test]
fn q_stops_the_application() {
    let mut home = Home::new();
    let mut input_box = InputBox::new();
    let mut connection = ConnectionPopup::new();
    handle_q_key(&mut home, &mut input_box, &mut connection);
    assert!(!home.running);
    assert_eq!(home.current_screen, ScreenState::Sessions);
}

#[test]
fn q_goes_back_from_the_transfers() {
    let mut home = Home::new();
    home.current_screen = ScreenState::Transfer;
    let mut input_box = InputBox::new();
    let mut connection = ConnectionPopup::new();
    handle_q_key(&mut home, &mut input_box, &mut connection);
    assert!(home.running);
    assert_eq!(home.current_screen, ScreenState::Sessions);
}

#[test]
fn q_answers_the_confirm_dialog_with_no() {
    let mut home = Home::new();
    home.show_popup = true;
    let mut input_box = InputBox::new();
    let mut connection = ConnectionPopup::new();
    handle_q_key(&mut home, &mut input_box, &mut connection);
    assert!(!home.show_popup);
    assert_eq!(home.popup_events, vec![(1, Some(false))]);
    assert!(!home.running);
}

#[test]
fn q_is_typed_while_the_api_key_is_asked_for() {
    let mut home = Home::new();
    home.show_api_popup = true;
    let mut input_box = InputBox::new();
    input_box.input_mode = InputMode::Editing;
    let mut connection = ConnectionPopup::new();
    handle_q_key(&mut home, &mut input_box, &mut connection);
    assert_eq!(input_box.input, vec!['q']);
    assert!(!home.running);
}

#[test]
fn q_closes_the_input_of_the_connection_popup() {
    let mut home = Home::new();
    home.current_screen = ScreenState::TcpServer;
    let mut input_box = InputBox::new();
    let mut connection = ConnectionPopup::new();
    connection.input_popup = true;
    handle_q_key(&mut home, &mut input_box, &mut connection);
    assert!(!connection.input_popup);
    assert_eq!(home.current_screen, ScreenState::Sessions);
    assert!(!home.running);
}

#[test]
fn n_opens_the_connection_popup() {
    let mut home = Home::new();
    let mut input_box = InputBox::new();
    input_box.input_mode = InputMode::Editing;
    let mut connection = ConnectionPopup::new();
    connection.visible = false;
    handle_n_key(&mut home, 'n', &mut input_box, &mut connection);
    assert!(home.show_popup);
    assert!(connection.visible);
    assert_eq!(home.current_screen, ScreenState::Connection);
    assert_eq!(input_box.input_mode, InputMode::Normal);
    handle_n_key(&mut home, 'n', &mut input_box, &mut connection);
    assert!(!connection.visible);
    assert_eq!(home.current_screen, ScreenState::Sessions);
}

#[test]
fn n_is_typed_while_a_text_is_asked_for() {
    let mut home = Home::new();
    home.show_api_popup = true;
    let mut input_box = InputBox::new();
    input_box.input_mode = InputMode::Editing;
    let mut connection = ConnectionPopup::new();
    handle_n_key(&mut home, 'n', &mut input_box, &mut connection);
    assert_eq!(input_box.input, vec!['n']);
    assert!(!home.show_popup);
    assert_eq!(home.current_screen, ScreenState::Sessions);
}

#[test]
fn escape_leaves_the_screens_of_the_connection() {
    let mut input_box = InputBox::new();
    for (from, to) in [
        (ScreenState::TcpServer, ScreenState::Sessions),
        (ScreenState::TcpClient, ScreenState::Sessions),
        (ScreenState::Connection, ScreenState::TCP),
        (ScreenState::TCP, ScreenState::Sessions),
    ] {
        let mut home = Home::new();
        home.current_screen = from;
        home.show_popup = true;
        handle_esc_key(&mut home, &mut input_box);
        assert_eq!(home.current_screen, to);
        assert!(home.show_popup);
    }
}

#[test]
fn escape_closes_the_topmost_of_what_is_open() {
    let mut home = Home::new();
    home.show_popup = true;
    home.show_api_popup = true;
    home.render_url_popup = true;
    home.error = true;
    let mut input_box = InputBox::new();
    input_box.input_mode = InputMode::Editing;
    handle_esc_key(&mut home, &mut input_box);
    assert!(!home.show_popup);
    assert_eq!(home.popup_events, vec![(1, Some(false))]);
    assert_eq!(input_box.input_mode, InputMode::Editing);
    handle_esc_key(&mut home, &mut input_box);
    assert_eq!(input_box.input_mode, InputMode::Normal);
    assert!(home.show_api_popup);
    handle_esc_key(&mut home, &mut input_box);
    assert!(!home.show_api_popup);
    assert!(home.render_url_popup);
    handle_esc_key(&mut home, &mut input_box);
    assert!(!home.render_url_popup);
    assert!(home.error);
    handle_esc_key(&mut home, &mut input_box);
    assert!(!home.error);
}

#[test]
fn the_arrows_choose_the_button_of_the_confirm_dialog() {
    let mut home = Home::new();
    home.show_popup = true;
    let mut d = deps();
    handle_right_key(&mut home, &mut d.input_box, &mut d.connection, &mut d.host);
    assert_eq!(home.selected_button, 0);
    handle_left_key(&mut home, &mut d.input_box, &mut d.connection, &mut d.host);
    assert_eq!(home.selected_button, 1);
    assert_eq!(home.popup_events, vec![(0, None), (1, None)]);
}

#[test]
fn the_arrows_move_the_cursor_of_a_box_that_is_edited() {
    let mut home = Home::new();
    let mut d = deps();
    type_text(&mut d, "abc");
    handle_left_key(&mut home, &mut d.input_box, &mut d.connection, &mut d.host);
    assert_eq!(d.input_box.character_index, 2);
    handle_right_key(&mut home, &mut d.input_box, &mut d.connection, &mut d.host);
    handle_right_key(&mut home, &mut d.input_box, &mut d.connection, &mut d.host);
    assert_eq!(d.input_box.character_index, 3);
}

#[test]
fn the_arrows_move_the_choice_of_the_popup_that_is_open() {
    let mut home = Home::new();
    let mut d = deps();
    d.connection.visible = true;
    d.host.visible = true;
    handle_right_key(&mut home, &mut d.input_box, &mut d.connection, &mut d.host);
    assert_eq!(d.connection.selected, ConnectionType::P2P);
    assert_eq!(d.host.selected, HostType::SENDER);
    handle_left_key(&mut home, &mut d.input_box, &mut d.connection, &mut d.host);
    assert_eq!(d.connection.selected, ConnectionType::TCP);
    d.connection.visible = false;
    handle_right_key(&mut home, &mut d.input_box, &mut d.connection, &mut d.host);
    assert_eq!(d.host.selected, HostType::RECEIVER);
    handle_left_key(&mut home, &mut d.input_box, &mut d.connection, &mut d.host);
    assert_eq!(d.host.selected, HostType::SENDER);
}

#[test]
fn d_enters_and_leaves_the_debug_screen() {
    let mut home = Home::new();
    let mut debug = DebugScreen::new();
    handle_d_key(&mut home, &mut debug);
    assert_eq!(home.current_screen, ScreenState::Debug);
    handle_d_key(&mut home, &mut debug);
    assert_eq!(home.current_screen, ScreenState::Sessions);
    assert_eq!(
        debug.lines,
        vec!["Entering Debug mode".to_string(), "Leaving Debug mode".to_string()]
    );
}

#[test]
fn up_and_down_move_the_selection_unless_the_help_is_shown() {
    let mut table = TableWidget::new();
    table.items.push(Item::Device(Device::new_empty()));
    table.items.push(Item::Device(Device::new_empty()));
    handle_down_arrow(&mut table);
    handle_down_arrow(&mut table);
    assert_eq!(table.selected, Some(1));
    handle_up_key(&mut table);
    assert_eq!(table.selected, Some(0));
    table.help = true;
    handle_down_arrow(&mut table);
    handle_up_key(&mut table);
    assert_eq!(table.selected, Some(0));
}

#[test]
fn o_opens_the_explorer_from_the_sessions() {
    let mut home = Home::new();
    assert!(handle_o_key(&home));
    home.current_screen = ScreenState::Transfer;
    assert!(!handle_o_key(&home));
}

#[test]
fn enter_answers_the_confirm_dialog_with_yes() {
    let mut home = Home::new();
    home.show_popup = true;
    let mut d = deps();
    d.table.active = true;
    let action = home.handle_event(Key::Enter, &mut d);
    assert_eq!(action, KeyAction::Enter(EnterAction::Nothing));
    assert!(!home.show_popup);
    assert_eq!(home.popup_events, vec![(1, Some(true))]);
    assert_eq!(home.current_screen, ScreenState::Sessions);
}

#[test]
fn enter_opens_the_selected_device() {
    let mut home = Home::new();
    let mut d = deps();
    let file = Data {
        name: "a.txt".to_string(),
        status: "done".to_string(),
        destination: "here".to_string(),
        time: "now".to_string(),
    };
    let mut device = Device::new_empty();
    device.files = Some(vec![file.clone()]);
    d.table.items.push(Item::Device(device));
    d.table.selected = Some(0);
    d.table.active = true;
    let action = home.handle_event(Key::Enter, &mut d);
    assert_eq!(action, KeyAction::Enter(EnterAction::Nothing));
    assert_eq!(home.current_screen, ScreenState::Transfer);
    assert_eq!(d.table.items.len(), 2);
    assert_eq!(d.table.items[1], Item::Data(file));
}

#[test]
fn enter_confirms_tcp_and_asks_for_the_side() {
    let mut home = Home::new();
    home.current_screen = ScreenState::Connection;
    let mut d = deps();
    d.connection.visible = true;
    let action = home.handle_event(Key::Enter, &mut d);
    assert_eq!(action, KeyAction::Enter(EnterAction::Nothing));
    assert_eq!(d.connection.returned_val, Some(ConnectionType::TCP));
    assert!(d.connection.input_popup);
    assert!(!d.connection.visible);
    assert!(d.host.visible);
    assert_eq!(home.current_screen, ScreenState::TCP);
}

#[test]
fn enter_on_another_way_to_connect_only_remembers_it() {
    let mut home = Home::new();
    home.current_screen = ScreenState::Connection;
    let mut d = deps();
    d.connection.visible = true;
    d.connection.selected = ConnectionType::WIFI;
    home.handle_event(Key::Enter, &mut d);
    assert_eq!(d.connection.returned_val, Some(ConnectionType::WIFI));
    assert!(d.connection.visible);
    assert!(!d.host.visible);
    assert_eq!(home.current_screen, ScreenState::Connection);
}

#[test]
fn enter_confirms_the_side_of_the_host() {
    let mut home = Home::new();
    let mut d = deps();
    d.host.visible = true;
    home.handle_event(Key::Enter, &mut d);
    assert_eq!(home.current_screen, ScreenState::TcpClient);
    assert!(d.connection.logs);
    assert!(!d.host.visible);

    let mut home = Home::new();
    let mut d = deps();
    d.host.visible = true;
    d.host.selected = HostType::RECEIVER;
    home.handle_event(Key::Enter, &mut d);
    assert_eq!(home.current_screen, ScreenState::TcpServer);
    assert!(d.connection.input_popup);
    assert!(!d.connection.logs);
}

#[test]
fn enter_takes_a_port_to_listen_on() {
    let mut home = Home::new();
    home.current_screen = ScreenState::TcpServer;
    let mut d = deps();
    type_text(&mut d, "8080");
    let action = home.handle_event(Key::Enter, &mut d);
    assert_eq!(action, KeyAction::Enter(EnterAction::Listen { port: 8080 }));
    assert_eq!(d.progress.state, ConnectionState::Connecting);
    assert!(!home.error);
    assert_eq!(d.input_box.input, Vec::<char>::new());
}

#[test]
fn enter_refuses_a_port_below_1024() {
    let mut home = Home::new();
    home.current_screen = ScreenState::TcpServer;
    let mut d = deps();
    type_text(&mut d, "80");
    let action = home.handle_event(Key::Enter, &mut d);
    assert_eq!(action, KeyAction::Enter(EnterAction::Nothing));
    assert!(home.error);
    assert_eq!(d.error.message, "Port must be between 1024 and 65535");
    assert_eq!(d.error.level, ErrorType::Warning);
    assert_eq!(d.error.title, " Warning");
    assert_eq!(d.error.button, "Ok");
    assert_eq!(d.progress.state, ConnectionState::NoConnection);
}

#[test]
fn enter_refuses_what_is_no_port() {
    for input in ["http", "65536", "-1", "80 80"] {
        let mut home = Home::new();
        home.current_screen = ScreenState::TcpServer;
        let mut d = deps();
        type_text(&mut d, input);
        let action = home.handle_event(Key::Enter, &mut d);
        assert_eq!(action, KeyAction::Enter(EnterAction::Nothing));
        assert!(home.error);
        assert_eq!(d.error.message, "Invalid port number");
    }
}

#[test]
fn enter_on_an_empty_port_does_nothing() {
    let mut home = Home::new();
    home.current_screen = ScreenState::TcpServer;
    let mut d = deps();
    let action = home.handle_event(Key::Enter, &mut d);
    assert_eq!(action, KeyAction::Enter(EnterAction::Nothing));
    assert!(!home.error);
    assert_eq!(d.error, ErrorWidget::new());
}

#[test]
fn enter_takes_an_address_to_connect_to() {
    let mut home = Home::new();
    home.current_screen = ScreenState::TcpClient;
    let mut d = deps();
    type_text(&mut d, "192.168.1.5");
    let action = home.handle_event(Key::Enter, &mut d);
    assert_eq!(
        action,
        KeyAction::Enter(EnterAction::Connect { address: "192.168.1.5:8080".to_string() })
    );
    assert_eq!(d.progress.state, ConnectionState::Connecting);
    assert_eq!(connect_address("host:9000".to_string()), "host:9000");
    assert_eq!(connect_address("host".to_string()), "host:8080");
}

#[test]
fn enter_takes_an_api_key() {
    let mut home = Home::new();
    home.current_screen = ScreenState::Home;
    home.show_api_popup = true;
    let mut d = deps();
    type_text(&mut d, "k3y");
    let action = home.handle_event(Key::Enter, &mut d);
    assert_eq!(action, KeyAction::Enter(EnterAction::CreateConfig { key: "k3y".to_string() }));
    assert!(home.show_api_popup);
    config_finished(Ok(()), &mut home, &mut d.error, &mut d.connection, &mut d.host);
    assert!(!home.show_api_popup);
    assert!(!home.error);
    assert_eq!(home.current_screen, ScreenState::Sessions);
}

#[test]
fn enter_on_an_empty_api_key_warns() {
    let mut home = Home::new();
    home.current_screen = ScreenState::Home;
    let mut d = deps();
    let action = home.handle_event(Key::Enter, &mut d);
    assert_eq!(action, KeyAction::Enter(EnterAction::Nothing));
    assert!(home.error);
    assert_eq!(d.error.message, "API key cannot be empty");
    assert_eq!(home.current_screen, ScreenState::Sessions);
}

#[test]
fn a_configuration_that_could_not_be_written_is_warned_of() {
    let mut home = Home::new();
    home.show_api_popup = true;
    home.show_popup = true;
    let mut d = deps();
    d.connection.visible = true;
    d.host.visible = true;
    config_finished(
        Err("Config already exists".to_string()),
        &mut home,
        &mut d.error,
        &mut d.connection,
        &mut d.host,
    );
    assert!(home.error);
    assert_eq!(d.error.message, "Config already exists");
    assert!(!home.show_api_popup && !home.show_popup);
    assert!(!d.connection.visible && !d.host.visible);
    assert_eq!(home.current_screen, ScreenState::Sessions);
}

#[test]
fn a_connection_that_stands_is_recorded() {
    let mut home = Home::new();
    let mut d = deps();
    type_text(&mut d, "left");
    let record = connection_finished(
        Side::Server,
        Ok(()),
        "alice".to_string(),
        "10.0.0.1".to_string(),
        "2024-01-01T00:00:00Z".to_string(),
        &mut home,
        &mut d.table,
        &mut d.progress,
        &mut d.input_box,
    )
    .unwrap();
    assert_eq!(record.name, "alice");
    assert_eq!(record.ip, "10.0.0.1");
    assert_eq!(record.last_transfer, "N/A");
    assert_eq!(record.last_connection, "2024-01-01T00:00:00Z");
    assert!(home.connected);
    assert_eq!(d.progress.state, ConnectionState::Connected);
    assert_eq!(d.input_box.input, Vec::<char>::new());
    assert_eq!(d.input_box.character_index, 0);
    let expected = Device {
        name: "alice".to_string(),
        ip: "10.0.0.1".to_string(),
        last_transfer: Transfer {
            status: "N/A".to_string(),
            size: "N/A".to_string(),
            name: "N/A".to_string(),
        },
        last_connection: Connection {
            total: "2024-01-01T00:00:00Z".to_string(),
            format_date: "2024-01-01T00:00:00Z".to_string(),
        },
        files: None,
    };
    assert_eq!(d.table.items, vec![Item::Device(expected)]);
}

#[test]
fn a_connection_that_failed_is_reported_with_its_reason() {
    let mut home = Home::new();
    let mut d = deps();
    type_text(&mut d, "kept");
    let record = connection_finished(
        Side::Client,
        Err("refused".to_string()),
        "alice".to_string(),
        "unknown".to_string(),
        "now".to_string(),
        &mut home,
        &mut d.table,
        &mut d.progress,
        &mut d.input_box,
    );
    assert_eq!(record, None);
    assert!(!home.connected);
    assert_eq!(d.progress.state, ConnectionState::Failed("Error connecting: refused".to_string()));
    assert_eq!(d.input_box.input, vec!['k', 'e', 'p', 't']);
    assert_eq!(d.table.items.len(), 1);

    let mut d = deps();
    connection_finished(
        Side::Server,
        Err("in use".to_string()),
        "alice".to_string(),
        "unknown".to_string(),
        "now".to_string(),
        &mut home,
        &mut d.table,
        &mut d.progress,
        &mut d.input_box,
    );
    assert_eq!(d.progress.state, ConnectionState::Failed("Error opening port: in use".to_string()));
}

#[test]
fn keys_reach_their_handlers() {
    let mut home = Home::new();
    let mut d = deps();
    assert_eq!(home.handle_event(Key::Char('o'), &mut d), KeyAction::OpenExplorer);
    assert_eq!(home.handle_event(Key::Char('?'), &mut d), KeyAction::Nothing);
    assert!(d.table.help);
    assert_eq!(home.handle_event(Key::Down, &mut d), KeyAction::Nothing);
    assert_eq!(d.table.selected, Some(0));
    home.handle_event(Key::Up, &mut d);
    assert_eq!(d.table.selected, Some(0));
    home.handle_event(Key::Char('d'), &mut d);
    assert_eq!(home.current_screen, ScreenState::Debug);
    home.handle_event(Key::Char('e'), &mut d);
    assert_eq!(d.input_box.input_mode, InputMode::Editing);
    home.handle_event(Key::Char('z'), &mut d);
    home.handle_event(Key::Char('d'), &mut d);
    assert_eq!(d.input_box.input, vec!['z', 'd']);
    assert_eq!(home.current_screen, ScreenState::Sessions);
    home.handle_event(Key::Left, &mut d);
    assert_eq!(d.input_box.character_index, 1);
    home.handle_event(Key::Right, &mut d);
    assert_eq!(d.input_box.character_index, 2);
    home.handle_event(Key::Backspace, &mut d);
    assert_eq!(d.input_box.input, vec!['z']);
    home.handle_event(Key::Esc, &mut d);
    assert_eq!(d.input_box.input_mode, InputMode::Normal);
    assert_eq!(home.handle_event(Key::Other, &mut d), KeyAction::Nothing);
    home.handle_event(Key::Char('n'), &mut d);
    assert_eq!(home.current_screen, ScreenState::Connection);
    home.handle_event(Key::Char('q'), &mut d);
    assert!(!home.running);
}

#[test]
fn handle_enter_key_can_be_called_directly() {
    let mut home = Home::new();
    home.show_popup = true;
    let mut d = deps();
    let action = handle_enter_key(
        &mut home,
        &mut d.input_box,
        &mut d.error,
        &mut d.table,
        &mut d.connection,
        &mut d.host,
        &mut d.progress,
    );
    assert_eq!(action, EnterAction::Nothing);
}

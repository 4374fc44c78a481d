use zync::explorer::{file_selected, open_explorer_and_file_select, upload_finished};
use zync::host_type::{HostType, HostTypePopup};
use zync::http::{store_reply, upload_target, HttpReply, StoreOutcome};
use zync::paths::{
    apply_options, canonicalized_path_to_string, contains_byte, get_export_path,
    validate_path_component, AddrInfoOptions, Format, InvalidFormat, NodeAddress, PathComponent,
    PathError,
};
use zync::records::SessionRecord;
use zync::screens::{DebugScreen, FileQuery};
use zync::store::{ends_with, is_session_file, load_sessions, session_file_name};
use zync::strings::str_eq;
use zync::upnp::{forward_port_igd, port_of_address, BadPort, LEASE_SECONDS};

fn normal(name: &str) -> PathComponent {
    PathComponent::Normal(name.to_string())
}

#[test]
fn a_component_with_a_separator_is_refused() {
    assert_eq!(validate_path_component("file.txt"), Ok(()));
    assert_eq!(validate_path_component(""), Ok(()));
    assert_eq!(validate_path_component("a/b"), Err(PathError::Separator));
    assert_eq!(validate_path_component("/"), Err(PathError::Separator));
}

#[test]
fn a_relative_path_becomes_its_names_with_slashes() {
    let path = vec![normal("a"), normal("b"), normal("c.txt")];
    assert_eq!(canonicalized_path_to_string(&path, true), Ok("a/b/c.txt".to_string()));
    assert_eq!(canonicalized_path_to_string(&vec![normal("a")], true), Ok("a".to_string()));
    assert_eq!(canonicalized_path_to_string(&Vec::new(), true), Ok(String::new()));
}

#[test]
fn a_path_from_the_root_keeps_its_slash() {
    let path = vec![PathComponent::RootDir, normal("a"), normal("b")];
    assert_eq!(canonicalized_path_to_string(&path, false), Ok("/a/b".to_string()));
    assert_eq!(canonicalized_path_to_string(&path, true), Err(PathError::InvalidComponent));
}

#[test]
fn a_path_with_a_component_that_is_no_name_is_refused() {
    for bad in [PathComponent::ParentDir, PathComponent::CurDir, PathComponent::Prefix] {
        let path = vec![normal("a"), bad, normal("b")];
        assert_eq!(canonicalized_path_to_string(&path, false), Err(PathError::InvalidComponent));
    }
    let path = vec![normal("a"), PathComponent::NonUnicode];
    assert_eq!(canonicalized_path_to_string(&path, false), Err(PathError::InvalidCharacter));
    let path = vec![normal("a\\b")];
    assert_eq!(canonicalized_path_to_string(&path, false), Err(PathError::InvalidComponent));
    let path = vec![normal("a/b")];
    assert_eq!(canonicalized_path_to_string(&path, false), Err(PathError::InvalidComponent));
}

#[test]
fn the_first_error_of_a_path_is_reported() {
    let path = vec![PathComponent::NonUnicode, PathComponent::ParentDir];
    assert_eq!(canonicalized_path_to_string(&path, false), Err(PathError::InvalidCharacter));
    let path = vec![PathComponent::ParentDir, PathComponent::NonUnicode];
    assert_eq!(canonicalized_path_to_string(&path, false), Err(PathError::InvalidComponent));
}

#[test]
fn an_entry_is_exported_below_the_root() {
    assert_eq!(get_export_path(b"/out", b"a/b.txt"), Ok(b"/out/a/b.txt".to_vec()));
    assert_eq!(get_export_path(b"/out/", b"a"), Ok(b"/out/a".to_vec()));
    assert_eq!(get_export_path(b"/out", b""), Ok(b"/out".to_vec()));
    assert_eq!(get_export_path(b"/out", b"a//b"), Ok(b"/out/a/b".to_vec()));
}

#[test]
fn formats_are_read_whatever_their_case() {
    assert_eq!(Format::from_str("hex"), Ok(Format::Hex));
    assert_eq!(Format::from_str("HEX"), Ok(Format::Hex));
    assert_eq!(Format::from_str("Cid"), Ok(Format::Cid));
    assert_eq!(Format::from_str("base32"), Err(InvalidFormat));
    assert_eq!(Format::from_str("").unwrap_err().message(), "invalid format");
    assert_eq!(Format::Hex.to_text(), "hex");
    assert_eq!(Format::Cid.to_text(), "cid");
    assert_eq!(Format::default(), Format::Hex);
}

#[test]
fn a_ticket_tells_what_its_kind_allows() {
    let full = || NodeAddress {
        direct_addresses: vec!["1.2.3.4:5".to_string()],
        relay_url: Some("https://relay".to_string()),
    };
    let mut addr = full();
    apply_options(&mut addr, AddrInfoOptions::Id);
    assert_eq!(addr, NodeAddress { direct_addresses: vec![], relay_url: None });
    let mut addr = full();
    apply_options(&mut addr, AddrInfoOptions::RelayAndAddresses);
    assert_eq!(addr, full());
    let mut addr = full();
    apply_options(&mut addr, AddrInfoOptions::Relay);
    assert_eq!(addr.direct_addresses, Vec::<String>::new());
    assert_eq!(addr.relay_url, Some("https://relay".to_string()));
    let mut addr = full();
    apply_options(&mut addr, AddrInfoOptions::Addresses);
    assert_eq!(addr.direct_addresses, vec!["1.2.3.4:5".to_string()]);
    assert_eq!(addr.relay_url, None);
    assert_eq!(AddrInfoOptions::default(), AddrInfoOptions::Id);
    assert_eq!(AddrInfoOptions::RelayAndAddresses.to_text(), "RelayAndAddresses");
}

#[test]
fn strings_and_bytes_are_compared() {
    assert!(str_eq("h\u{e9}llo", "h\u{e9}llo"));
    assert!(!str_eq("hello", "hellO"));
    assert!(!str_eq("a", "ab"));
    assert!(contains_byte(b"a:b", b':'));
    assert!(!contains_byte(b"ab", b':'));
    assert!(ends_with(b"x.json", b".json"));
    assert!(!ends_with(b"json", b".json"));
    assert!(ends_with(b"abc", b""));
}

#[test]
fn files_of_records_are_told_by_their_names() {
    assert!(is_session_file("session_2024-01-01.json"));
    assert!(is_session_file("session_.json"));
    assert!(!is_session_file("session_2024-01-01.txt"));
    assert!(!is_session_file("sessions.json"));
    assert!(!is_session_file("other_session_1.json"));
    assert_eq!(session_file_name("2024-01-01"), "session_2024-01-01.json");
}

#[test]
fn the_records_of_all_files_are_loaded_in_order() {
    let record = |name: &str| SessionRecord {
        name: name.to_string(),
        ip: "ip".to_string(),
        last_transfer: "t".to_string(),
        last_connection: "c".to_string(),
    };
    let files = vec![vec![record("a"), record("b")], vec![], vec![record("c")]];
    assert_eq!(load_sessions(files), vec![record("a"), record("b"), record("c")]);
    assert_eq!(load_sessions(Vec::new()), Vec::<SessionRecord>::new());
}

#[test]
fn the_port_of_an_address_stands_behind_its_last_colon() {
    assert_eq!(port_of_address(b"0.0.0.0:8080"), Some(8080));
    assert_eq!(port_of_address(b"[::1]:443"), Some(443));
    assert_eq!(port_of_address(b"8080"), Some(8080));
    assert_eq!(port_of_address(b"host:"), None);
    assert_eq!(port_of_address(b"host"), None);
    assert_eq!(port_of_address(b"host:65536"), None);
    assert_eq!(port_of_address(b""), None);
}

#[test]
fn a_port_is_forwarded_for_an_hour() {
    let mapping = forward_port_igd(b"0.0.0.0:4239").unwrap();
    assert_eq!(mapping.port, 4239);
    assert_eq!(mapping.lease_seconds, 3600);
    assert_eq!(mapping.lease_seconds, LEASE_SECONDS);
    assert_eq!(mapping.description, "Zync");
    assert_eq!(forward_port_igd(b"nowhere"), Err(BadPort));
}

#[test]
fn an_upload_over_http_is_stored_below_the_root() {
    let query = |path: &str| FileQuery { path: path.to_string() };
    let target = upload_target(&query("notes.txt"), b"/srv/store").unwrap();
    assert_eq!(target.to_bytes(), b"/srv/store/notes.txt".to_vec());
    let target = upload_target(&query("docs/./a.txt"), b"/srv/store").unwrap();
    assert_eq!(target.to_bytes(), b"/srv/store/docs/a.txt".to_vec());
}

#[test]
fn an_upload_over_http_without_a_path_is_refused() {
    let query = |path: &str| FileQuery { path: path.to_string() };
    let refused = HttpReply { status: 400, message: "Provided file path is empty".to_string() };
    assert_eq!(upload_target(&query(""), b"/srv/store"), Err(refused));
    let refused = HttpReply { status: 400, message: "Provided file path is empty".to_string() };
    assert_eq!(upload_target(&query("   "), b"/srv/store"), Err(refused));
}

#[test]
fn an_upload_over_http_that_leaves_the_root_is_refused() {
    let query = |path: &str| FileQuery { path: path.to_string() };
    for path in ["../../etc/passwd", "a/../../etc/passwd", "/etc/passwd", "dir/..", "."] {
        let refused = HttpReply { status: 400, message: "Invalid Command".to_string() };
        assert_eq!(upload_target(&query(path), b"/srv/store"), Err(refused));
    }
}

#[test]
fn an_upload_over_http_is_answered() {
    assert_eq!(
        store_reply(StoreOutcome::Saved("\"/s/a\"".to_string())),
        HttpReply { status: 200, message: "File saved successfully to \"/s/a\"".to_string() }
    );
    assert_eq!(
        store_reply(StoreOutcome::NoDirectory("denied".to_string())),
        HttpReply {
            status: 500,
            message: "Failed to create destination directory: denied".to_string()
        }
    );
    assert_eq!(
        store_reply(StoreOutcome::NotWritten("full".to_string())),
        HttpReply { status: 500, message: "Failed to save file: full".to_string() }
    );
}

#[test]
fn only_the_sender_opens_the_explorer() {
    let mut host = HostTypePopup::new();
    let mut debug = DebugScreen::new();
    assert!(open_explorer_and_file_select(&host, &mut debug));
    assert_eq!(debug.lines, Vec::<String>::new());
    host.selected = HostType::RECEIVER;
    assert!(!open_explorer_and_file_select(&host, &mut debug));
    assert_eq!(debug.lines, vec!["File sending is only available in client mode.".to_string()]);
}

#[test]
fn a_picked_file_is_uploaded_where_a_connection_is_open() {
    let mut debug = DebugScreen::new();
    assert_eq!(
        file_selected(&mut debug, true, Some("/tmp/a.txt".to_string())),
        Some("/tmp/a.txt".to_string())
    );
    assert_eq!(file_selected(&mut debug, false, Some("/tmp/b.txt".to_string())), None);
    assert_eq!(file_selected(&mut debug, true, None), None);
    upload_finished(&mut debug, Ok(()));
    upload_finished(&mut debug, Err("broken pipe".to_string()));
    assert_eq!(
        debug.lines,
        vec![
            "Selected file: /tmp/a.txt".to_string(),
            "Selected file: /tmp/b.txt".to_string(),
            "No active TCP connection available.".to_string(),
            "No file selected.".to_string(),
            "File uploaded successfully.".to_string(),
            "Error uploading file: broken pipe".to_string(),
        ]
    );
}

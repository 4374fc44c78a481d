use zync::session::{dispatch_line, invalid_bytes, uploaded_bytes, Action, Session};
use zync::storage::resolve;
use zync::transfer::TransferError;

fn root() -> Vec<u8> {
    b"/srv/store".to_vec()
}

fn written(actions: &[Action]) -> Vec<u8> {
    let mut out = Vec::new();
    for action in actions {
        if let Action::Write(bytes) = action {
            out.extend_from_slice(bytes);
        }
    }
    out
}

#[test]
fn the_responses_are_as_on_the_wire() {
    assert_eq!(invalid_bytes(), b"Invalid Command".to_vec());
    assert_eq!(uploaded_bytes(), b"File uploaded successfully\n".to_vec());
}

#[test]
fn put_writes_the_payload_and_acknowledges() {
    let mut session = Session::new(root());
    let actions = session.on_read(b"PUT notes.txt 13\nhello world!!");
    assert_eq!(
        actions,
        vec![
            Action::CreateFile(resolve(&root(), b"notes.txt").unwrap()),
            Action::Write(b"hello world!!".to_vec()),
            Action::Respond(b"File uploaded successfully\n".to_vec()),
        ]
    );
    match &actions[0] {
        Action::CreateFile(path) => assert_eq!(path.to_bytes(), b"/srv/store/notes.txt".to_vec()),
        _ => panic!("the file is created first"),
    }
    assert!(!session.is_closed());
    assert_eq!(session.progress(), None);
}

#[test]
fn put_takes_its_payload_over_several_reads() {
    let mut session = Session::new(root());
    let first = session.on_read(b"PUT notes.txt 13\n");
    assert_eq!(first, vec![Action::CreateFile(resolve(&root(), b"notes.txt").unwrap())]);
    assert_eq!(session.progress(), Some((0, 13)));
    assert_eq!(session.read_limit(8192), 13);
    assert_eq!(session.read_limit(4), 4);
    let second = session.on_read(b"hello");
    assert_eq!(second, vec![Action::Write(b"hello".to_vec())]);
    assert_eq!(session.progress(), Some((5, 13)));
    assert_eq!(session.read_limit(8192), 8);
    let third = session.on_read(b" world!!");
    assert_eq!(
        third,
        vec![
            Action::Write(b" world!!".to_vec()),
            Action::Respond(b"File uploaded successfully\n".to_vec()),
        ]
    );
    assert_eq!(session.progress(), None);
    assert_eq!(session.read_limit(8192), 8192);
}

#[test]
fn however_the_reads_cut_the_payload_the_same_bytes_are_written() {
    let wire = b"PUT data.bin 10\n0123456789".to_vec();
    for cut in 16..wire.len() {
        let mut session = Session::new(root());
        let mut actions = session.on_read(&wire[..cut]);
        if cut < wire.len() {
            actions.extend(session.on_read(&wire[cut..]));
        }
        assert_eq!(written(&actions), b"0123456789".to_vec());
        assert_eq!(
            actions.last(),
            Some(&Action::Respond(b"File uploaded successfully\n".to_vec()))
        );
        assert_eq!(session.progress(), None);
    }
}

#[test]
fn put_of_size_zero_creates_the_file_and_reads_nothing() {
    let mut session = Session::new(root());
    let actions = session.on_read(b"PUT empty.txt 0\n");
    assert_eq!(
        actions,
        vec![
            Action::CreateFile(resolve(&root(), b"empty.txt").unwrap()),
            Action::Respond(b"File uploaded successfully\n".to_vec()),
        ]
    );
    assert_eq!(session.progress(), None);
    assert_eq!(session.read_limit(100), 100);
}

#[test]
fn a_peer_that_closes_early_leaves_a_truncated_transfer() {
    let mut session = Session::new(root());
    session.on_read(b"PUT notes.txt 13\nhello");
    assert_eq!(session.progress(), Some((5, 13)));
    let actions = session.on_read(b"");
    assert_eq!(
        actions,
        vec![Action::Close(Some(TransferError::Truncated { expected: 13, received: 5 }))]
    );
    assert!(session.is_closed());
    assert_eq!(session.read_limit(8192), 0);
}

#[test]
fn a_peer_that_closes_between_commands_ends_the_session_cleanly() {
    let mut session = Session::new(root());
    assert_eq!(session.on_read(b""), vec![Action::Close(None)]);
    assert!(session.is_closed());
    assert_eq!(session.on_read(b"LIST"), Vec::<Action>::new());
    assert_eq!(session.on_read(b""), Vec::<Action>::new());
}

#[test]
fn bytes_behind_the_payload_are_the_next_command() {
    let mut session = Session::new(root());
    let actions = session.on_read(b"PUT a 3\nabcLIST\nGET a\n");
    assert_eq!(
        actions,
        vec![
            Action::CreateFile(resolve(&root(), b"a").unwrap()),
            Action::Write(b"abc".to_vec()),
            Action::Respond(b"File uploaded successfully\n".to_vec()),
            Action::ListStorage,
            Action::SendFile(resolve(&root(), b"a").unwrap()),
        ]
    );
}

#[test]
fn get_asks_for_the_file_to_be_sent() {
    let mut session = Session::new(root());
    let actions = session.on_read(b"GET docs/a.txt");
    assert_eq!(actions, vec![Action::SendFile(resolve(&root(), b"docs/a.txt").unwrap())]);
}

#[test]
fn list_asks_for_the_listing() {
    let mut session = Session::new(root());
    let mut request = vec![0u8; 64];
    request[..4].copy_from_slice(b"LIST");
    assert_eq!(session.on_read(&request), vec![Action::ListStorage]);
}

#[test]
fn delete_is_accepted_and_nothing_is_done() {
    let mut session = Session::new(root());
    assert_eq!(session.on_read(b"DELETE notes.txt"), Vec::<Action>::new());
    assert!(!session.is_closed());
}

#[test]
fn an_unknown_verb_gets_no_response() {
    let mut session = Session::new(root());
    assert_eq!(session.on_read(b"HELLO server"), Vec::<Action>::new());
    assert_eq!(session.on_read(b"FOO x"), Vec::<Action>::new());
    assert!(!session.is_closed());
}

#[test]
fn a_word_that_only_begins_with_a_verb_gets_no_response() {
    let mut session = Session::new(root());
    assert_eq!(session.on_read(b"LISTING"), Vec::<Action>::new());
    assert_eq!(session.on_read(b"PUTX a 3"), Vec::<Action>::new());
    assert_eq!(session.on_read(b"GETTING"), Vec::<Action>::new());
    assert_eq!(session.on_read(b"DELETED x"), Vec::<Action>::new());
    assert!(!session.is_closed());
    assert_eq!(session.on_read(b"LIST"), vec![Action::ListStorage]);
}

#[test]
fn a_malformed_command_gets_the_error_line_and_the_session_goes_on() {
    let mut session = Session::new(root());
    assert_eq!(
        session.on_read(b"PUT notes.txt"),
        vec![Action::Respond(b"Invalid Command".to_vec())]
    );
    assert_eq!(
        session.on_read(b"PUT notes.txt many"),
        vec![Action::Respond(b"Invalid Command".to_vec())]
    );
    assert_eq!(session.on_read(b"GET"), vec![Action::Respond(b"Invalid Command".to_vec())]);
    assert_eq!(session.on_read(b"LIST"), vec![Action::ListStorage]);
}

#[test]
fn a_name_that_leaves_the_root_gets_the_error_line_and_touches_nothing() {
    let mut session = Session::new(root());
    assert_eq!(
        session.on_read(b"GET ../../etc/passwd"),
        vec![Action::Respond(b"Invalid Command".to_vec())]
    );
    assert_eq!(
        session.on_read(b"PUT ../../etc/passwd 4\nroot"),
        vec![Action::Respond(b"Invalid Command".to_vec()), ]
    );
    assert_eq!(session.progress(), None);
}

#[test]
fn one_line_is_dispatched() {
    let (upload, actions) = dispatch_line(b"/srv/store", b"PUT a 5");
    assert_eq!(actions, vec![Action::CreateFile(resolve(b"/srv/store", b"a").unwrap())]);
    let upload = upload.unwrap();
    assert_eq!(upload.declared_size(), 5);
    assert_eq!(upload.bytes_transferred(), 0);
    let (upload, actions) = dispatch_line(b"/srv/store", b"LIST");
    assert_eq!(actions, vec![Action::ListStorage]);
    assert!(upload.is_none());
}

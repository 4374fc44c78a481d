use zync::pool::{Threadpool, Turn, WorkerState};
use zync::server::{
    list_response, list_storage, listen_address, parse_port, put, AcceptorAction, AcceptorEvent,
    AcceptorState, PortError, PutDone, BUFFER_SIZE, POOL_SIZE, TCP,
};
use zync::session::Action;
use zync::storage::resolve;
use zync::transfer::TransferError;

#[test]
fn a_listing_is_a_json_array_of_the_names() {
    let names = vec!["a.txt".to_string(), "b.txt".to_string()];
    assert_eq!(
        list_storage(&names),
        b"Listing storage items...\n[\"a.txt\",\"b.txt\"]\n".to_vec()
    );
}

#[test]
fn a_listing_of_nothing_is_an_empty_array() {
    assert_eq!(list_storage(&Vec::new()), b"Listing storage items...\n[]\n".to_vec());
}

#[test]
fn names_are_escaped_in_a_listing() {
    let names = vec!["say \"hi\".txt".to_string(), "back\\slash".to_string()];
    assert_eq!(
        list_storage(&names),
        b"Listing storage items...\n[\"say \\\"hi\\\".txt\",\"back\\\\slash\"]\n".to_vec()
    );
}

#[test]
fn two_listings_of_the_same_names_are_the_same() {
    let names = vec!["b.txt".to_string(), "a.txt".to_string()];
    assert_eq!(list_storage(&names), list_storage(&names.clone()));
}

#[test]
fn a_listing_wraps_the_json_text() {
    assert_eq!(list_response("[]"), b"Listing storage items...\n[]\n".to_vec());
    assert_eq!(list_response("[\"\u{e4}\"]"), "Listing storage items...\n[\"\u{e4}\"]\n".as_bytes());
}

#[test]
fn the_acceptor_submits_what_it_accepts() {
    let (state, action) = TCP::run(AcceptorState::Binding, AcceptorEvent::Bound);
    assert_eq!((state, action), (AcceptorState::Listening, AcceptorAction::Accept));
    let (state, action) = TCP::run(state, AcceptorEvent::Accepted(7));
    assert_eq!((state, action), (AcceptorState::Listening, AcceptorAction::Submit(7)));
    let (state, action) = TCP::run(state, AcceptorEvent::AcceptFailed);
    assert_eq!((state, action), (AcceptorState::Listening, AcceptorAction::Report));
    let (state, action) = TCP::run(state, AcceptorEvent::Accepted(8));
    assert_eq!((state, action), (AcceptorState::Listening, AcceptorAction::Submit(8)));
}

#[test]
fn a_bind_failure_is_fatal() {
    let (state, action) = TCP::run(AcceptorState::Binding, AcceptorEvent::BindFailed);
    assert_eq!((state, action), (AcceptorState::Failed, AcceptorAction::Abort));
    let (state, action) = TCP::run(state, AcceptorEvent::Accepted(1));
    assert_eq!((state, action), (AcceptorState::Failed, AcceptorAction::Abort));
}

#[test]
fn ports_from_1024_are_accepted() {
    assert_eq!(parse_port(b"1024"), Ok(1024));
    assert_eq!(parse_port(b"8080"), Ok(8080));
    assert_eq!(parse_port(b"65535"), Ok(65535));
    assert_eq!(parse_port(b"1023"), Err(PortError::OutOfRange));
    assert_eq!(parse_port(b"0"), Err(PortError::OutOfRange));
    assert_eq!(parse_port(b"65536"), Err(PortError::Invalid));
    assert_eq!(parse_port(b"port"), Err(PortError::Invalid));
    assert_eq!(parse_port(b""), Err(PortError::Invalid));
}

#[test]
fn the_server_listens_on_every_interface() {
    assert_eq!(listen_address(8080), b"0.0.0.0:8080".to_vec());
    assert_eq!(listen_address(65535), b"0.0.0.0:65535".to_vec());
    assert_eq!(BUFFER_SIZE, 8 * 1024);
    assert_eq!(POOL_SIZE, 6);
}

#[test]
fn a_pool_without_workers_is_refused() {
    let pool = Threadpool::<u32>::build(0);
    assert!(pool.is_err());
    assert_eq!(pool.unwrap_err().message(), "Size must be greater than zero");
}

#[test]
fn a_pool_starts_with_idle_workers() {
    let pool = Threadpool::<u32>::build(3).unwrap();
    assert_eq!(pool.size(), 3);
    assert_eq!(pool.queued(), 0);
    assert_eq!(pool.busy(), 0);
    assert!(!pool.is_terminating());
    assert_eq!(pool.state_of(0), Some(WorkerState::Idle));
    assert_eq!(pool.state_of(2), Some(WorkerState::Idle));
    assert_eq!(pool.state_of(3), None);
    assert!(!pool.all_exited());
}

#[test]
fn jobs_are_served_in_the_order_in_which_they_came() {
    let mut pool = Threadpool::<u32>::build(2).unwrap();
    assert_eq!(pool.execute(10), None);
    assert_eq!(pool.execute(11), None);
    assert_eq!(pool.execute(12), None);
    assert_eq!(pool.queued(), 3);
    assert_eq!(pool.next_turn(0), Turn::Run(10));
    assert_eq!(pool.next_turn(1), Turn::Run(11));
    assert_eq!(pool.busy(), 2);
    assert_eq!(pool.queued(), 1);
    assert_eq!(pool.next_turn(0), Turn::Wait);
    assert_eq!(pool.next_turn(1), Turn::Wait);
    assert_eq!(pool.queued(), 1);
    pool.job_done(1);
    assert_eq!(pool.busy(), 1);
    assert_eq!(pool.next_turn(1), Turn::Run(12));
    assert_eq!(pool.queued(), 0);
    pool.job_done(0);
    assert_eq!(pool.next_turn(0), Turn::Wait);
}

#[test]
fn a_saturated_pool_drops_no_job() {
    let size = 3;
    let clients = 10u32;
    let mut pool = Threadpool::<u32>::build(size).unwrap();
    for job in 0..clients {
        assert_eq!(pool.execute(job), None);
    }
    let mut running: Vec<Option<u32>> = vec![None; size];
    let mut served = Vec::new();
    loop {
        let mut progressed = false;
        for worker in 0..size {
            if let Some(job) = running[worker].take() {
                served.push(job);
                pool.job_done(worker);
                progressed = true;
            }
            if let Turn::Run(job) = pool.next_turn(worker) {
                running[worker] = Some(job);
                progressed = true;
            }
            assert!(pool.busy() <= size);
        }
        if !progressed {
            break;
        }
    }
    served.sort();
    assert_eq!(served, (0..clients).collect::<Vec<u32>>());
    assert_eq!(pool.queued(), 0);
}

#[test]
fn with_enough_workers_every_job_runs_at_once() {
    let mut pool = Threadpool::<u32>::build(4).unwrap();
    for job in 0..4 {
        pool.execute(job);
    }
    for worker in 0..4 {
        assert_eq!(pool.next_turn(worker), Turn::Run(worker as u32));
    }
    assert_eq!(pool.busy(), 4);
    assert_eq!(pool.queued(), 0);
}

#[test]
fn shutdown_sends_one_signal_to_each_worker_behind_the_queued_jobs() {
    let mut pool = Threadpool::<u32>::build(2).unwrap();
    pool.execute(1);
    assert_eq!(pool.next_turn(0), Turn::Run(1));
    pool.execute(2);
    pool.shutdown();
    assert!(pool.is_terminating());
    assert_eq!(pool.queued(), 3);
    assert_eq!(pool.execute(3), Some(3));
    assert_eq!(pool.queued(), 3);
    pool.shutdown();
    assert_eq!(pool.queued(), 3);
    assert_eq!(pool.next_turn(1), Turn::Run(2));
    pool.job_done(0);
    assert_eq!(pool.next_turn(0), Turn::Exit);
    assert_eq!(pool.state_of(0), Some(WorkerState::Exited));
    assert_eq!(pool.next_turn(0), Turn::Wait);
    pool.job_done(1);
    assert_eq!(pool.next_turn(1), Turn::Exit);
    assert!(pool.all_exited());
    assert_eq!(pool.queued(), 0);
}

#[test]
fn a_worker_that_does_not_exist_waits() {
    let mut pool = Threadpool::<u32>::build(1).unwrap();
    pool.execute(1);
    assert_eq!(pool.next_turn(5), Turn::Wait);
    assert_eq!(pool.queued(), 1);
    pool.job_done(5);
    pool.job_done(0);
    assert_eq!(pool.state_of(0), Some(WorkerState::Idle));
}

#[test]
fn one_path_is_written_by_one_upload_at_a_time() {
    let mut locks = zync::locks::PathLocks::new();
    assert!(!locks.is_held(b"/srv/a"));
    assert!(locks.try_acquire(b"/srv/a"));
    assert!(locks.is_held(b"/srv/a"));
    assert!(!locks.try_acquire(b"/srv/a"));
    assert!(locks.try_acquire(b"/srv/b"));
    locks.release(b"/srv/a");
    assert!(!locks.is_held(b"/srv/a"));
    assert!(locks.is_held(b"/srv/b"));
    assert!(locks.try_acquire(b"/srv/a"));
    locks.release(b"/srv/c");
    assert!(locks.is_held(b"/srv/a"));
    locks.release(b"/srv/a");
    locks.release(b"/srv/b");
    assert_eq!(locks, zync::locks::PathLocks::new());
}

fn error_line() -> Vec<Action> {
    vec![Action::Respond(b"Invalid Command".to_vec())]
}

#[test]
fn put_stores_exactly_the_declared_bytes_and_acknowledges() {
    let mut actions = Vec::new();
    let done = put(b"/srv/store", b"PUT notes.txt 13", b"hello world!!", 8192, &mut actions);
    assert_eq!(done, Ok(PutDone { reads: 1, consumed: 13 }));
    assert_eq!(
        actions,
        vec![
            Action::CreateFile(resolve(b"/srv/store", b"notes.txt").unwrap()),
            Action::Write(b"hello world!!".to_vec()),
            Action::Respond(b"File uploaded successfully\n".to_vec()),
        ]
    );
    match &actions[0] {
        Action::CreateFile(path) => assert_eq!(path.to_bytes(), b"/srv/store/notes.txt".to_vec()),
        _ => panic!("the file is created first"),
    }
}

#[test]
fn put_moves_the_payload_chunk_by_chunk() {
    let mut actions = Vec::new();
    let done = put(b"/srv/store", b"PUT notes.txt 13\n", b"hello world!!", 5, &mut actions);
    assert_eq!(done, Ok(PutDone { reads: 3, consumed: 13 }));
    assert_eq!(
        actions[1..],
        vec![
            Action::Write(b"hello".to_vec()),
            Action::Write(b" worl".to_vec()),
            Action::Write(b"d!!".to_vec()),
            Action::Respond(b"File uploaded successfully\n".to_vec()),
        ]
    );
}

#[test]
fn put_leaves_what_follows_the_payload() {
    let mut actions = vec![Action::ListStorage];
    let done = put(b"/srv/store", b"PUT a 3", b"abcLIST\n", 2, &mut actions);
    assert_eq!(done, Ok(PutDone { reads: 2, consumed: 3 }));
    assert_eq!(
        actions,
        vec![
            Action::ListStorage,
            Action::CreateFile(resolve(b"/srv/store", b"a").unwrap()),
            Action::Write(b"ab".to_vec()),
            Action::Write(b"c".to_vec()),
            Action::Respond(b"File uploaded successfully\n".to_vec()),
        ]
    );
}

#[test]
fn put_of_no_bytes_creates_the_file_and_reads_nothing() {
    let mut actions = Vec::new();
    let done = put(b"/srv/store", b"PUT empty.txt 0", b"GET next", 8192, &mut actions);
    assert_eq!(done, Ok(PutDone { reads: 0, consumed: 0 }));
    assert_eq!(
        actions,
        vec![
            Action::CreateFile(resolve(b"/srv/store", b"empty.txt").unwrap()),
            Action::Respond(b"File uploaded successfully\n".to_vec()),
        ]
    );
}

#[test]
fn put_of_a_short_payload_is_truncated_and_not_acknowledged() {
    let mut actions = Vec::new();
    let done = put(b"/srv/store", b"PUT notes.txt 13", b"hello", 4, &mut actions);
    assert_eq!(done, Err(TransferError::Truncated { expected: 13, received: 5 }));
    assert_eq!(
        actions,
        vec![
            Action::CreateFile(resolve(b"/srv/store", b"notes.txt").unwrap()),
            Action::Write(b"hell".to_vec()),
            Action::Write(b"o".to_vec()),
        ]
    );
    let mut actions = Vec::new();
    let done = put(b"/srv/store", b"PUT notes.txt 1", b"", 4, &mut actions);
    assert_eq!(done, Err(TransferError::Truncated { expected: 1, received: 0 }));
    assert_eq!(actions, vec![Action::CreateFile(resolve(b"/srv/store", b"notes.txt").unwrap())]);
}

#[test]
fn put_answers_a_malformed_line_with_the_error_line() {
    for line in ["PUT notes.txt", "PUT notes.txt 1x", "PUT a b 3", "PUT", "", "GET a 3", "PUTX a 3"] {
        let mut actions = Vec::new();
        let done = put(b"/srv/store", line.as_bytes(), b"payload", 4, &mut actions);
        assert_eq!(done, Ok(PutDone { reads: 0, consumed: 0 }));
        assert_eq!(actions, error_line());
    }
}

#[test]
fn put_refuses_a_name_that_leaves_the_root() {
    for line in ["PUT ../../etc/passwd 4", "PUT a/../../etc/passwd 4", "PUT /etc/passwd 4", "PUT . 4"] {
        let mut actions = Vec::new();
        let done = put(b"/srv/store", line.as_bytes(), b"root", 4, &mut actions);
        assert_eq!(done, Ok(PutDone { reads: 0, consumed: 0 }));
        assert_eq!(actions, error_line());
    }
}

#[test]
fn control_characters_are_escaped_in_a_listing() {
    let names = vec!["a\u{8}\t\n\u{c}\r".to_string(), "\u{0}\u{1}\u{b}\u{1f}".to_string()];
    assert_eq!(
        list_storage(&names),
        b"Listing storage items...\n[\"a\\b\\t\\n\\f\\r\",\"\\u0000\\u0001\\u000b\\u001f\"]\n"
            .to_vec()
    );
}

#[test]
fn other_characters_stand_for_themselves_in_a_listing() {
    let names = vec!["\u{7f} /'\u{e9}\u{65e5}".to_string()];
    assert_eq!(
        list_storage(&names),
        "Listing storage items...\n[\"\u{7f} /'\u{e9}\u{65e5}\"]\n".as_bytes().to_vec()
    );
    let names = vec!["one".to_string()];
    assert_eq!(list_storage(&names), b"Listing storage items...\n[\"one\"]\n".to_vec());
    let names = vec!["".to_string(), "".to_string(), "x".to_string()];
    assert_eq!(list_storage(&names), b"Listing storage items...\n[\"\",\"\",\"x\"]\n".to_vec());
}

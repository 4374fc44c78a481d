use zync::client::{
    file_name, receive_files, upload, upload_header, DownloadError, UploadError,
};
use zync::header::ProtocolError;
use zync::server::get_file;
use zync::session::{Action, Session};
use zync::storage::resolve;
use zync::transfer::{receive_chunks, send_chunks, Transfer, TransferError};

#[test]
fn a_transfer_counts_what_was_moved() {
    let mut transfer = Transfer::new(10);
    assert_eq!(transfer.declared_size(), 10);
    assert_eq!(transfer.bytes_transferred(), 0);
    assert_eq!(transfer.bytes_remaining(), 10);
    assert!(!transfer.is_complete());
    assert_eq!(transfer.next_len(4), 4);
    assert_eq!(transfer.advance(4), Ok(()));
    assert_eq!(transfer.bytes_transferred(), 4);
    assert_eq!(transfer.next_len(4), 4);
    assert_eq!(transfer.advance(4), Ok(()));
    assert_eq!(transfer.next_len(4), 2);
    assert_eq!(transfer.advance(2), Ok(()));
    assert!(transfer.is_complete());
    assert_eq!(transfer.bytes_remaining(), 0);
    assert_eq!(transfer.next_len(4), 0);
    assert_eq!(transfer.advance(0), Ok(()));
}

#[test]
fn a_transfer_of_no_bytes_is_complete_at_once() {
    let transfer = Transfer::new(0);
    assert!(transfer.is_complete());
    assert_eq!(transfer.next_len(8192), 0);
}

#[test]
fn a_read_of_no_bytes_before_the_end_is_a_truncation() {
    let mut transfer = Transfer::new(10);
    assert_eq!(transfer.advance(3), Ok(()));
    assert_eq!(
        transfer.advance(0),
        Err(TransferError::Truncated { expected: 10, received: 3 })
    );
    assert_eq!(transfer.bytes_transferred(), 3);
}

#[test]
fn more_bytes_than_are_owed_are_an_overrun() {
    let mut transfer = Transfer::new(10);
    assert_eq!(transfer.advance(8), Ok(()));
    assert_eq!(transfer.advance(3), Err(TransferError::Overrun { expected: 10, received: 8 }));
    assert_eq!(transfer.bytes_transferred(), 8);
}

#[test]
fn chunks_are_sent_until_nothing_remains() {
    let data: Vec<u8> = (0..=255u8).cycle().take(1000).collect();
    let mut out = b"head".to_vec();
    let progress = send_chunks(&data, 300, &mut out);
    assert_eq!(progress, vec![300, 600, 900, 1000]);
    assert_eq!(&out[..4], b"head");
    assert_eq!(&out[4..], &data[..]);
    let mut out = Vec::new();
    assert_eq!(send_chunks(&data, 1000, &mut out), vec![1000]);
    assert_eq!(send_chunks(&data, 999, &mut out), vec![999, 1000]);
    assert_eq!(send_chunks(&[], 10, &mut out), Vec::<u64>::new());
}

#[test]
fn exactly_the_declared_size_is_received() {
    let got = receive_chunks(b"0123456789extra", 10, 4).unwrap();
    assert_eq!(got.data, b"0123456789".to_vec());
    assert_eq!(got.reads, 3);
    let got = receive_chunks(b"0123456789", 10, 10).unwrap();
    assert_eq!(got.reads, 1);
    let got = receive_chunks(b"0123456789", 10, 1).unwrap();
    assert_eq!(got.reads, 10);
}

#[test]
fn receiving_no_bytes_takes_no_read() {
    let got = receive_chunks(b"anything", 0, 4).unwrap();
    assert_eq!(got.data, Vec::<u8>::new());
    assert_eq!(got.reads, 0);
}

#[test]
fn a_short_payload_is_a_truncated_transfer() {
    assert_eq!(
        receive_chunks(b"01234", 10, 4),
        Err(TransferError::Truncated { expected: 10, received: 5 })
    );
    assert_eq!(
        receive_chunks(b"", 1, 4),
        Err(TransferError::Truncated { expected: 1, received: 0 })
    );
}

#[test]
fn the_name_of_an_upload_is_the_last_segment_of_its_path() {
    assert_eq!(file_name(b"/home/u/notes.txt"), b"notes.txt".to_vec());
    assert_eq!(file_name(b"notes.txt"), b"notes.txt".to_vec());
    assert_eq!(file_name(b"dir/sub/"), b"sub".to_vec());
    assert_eq!(file_name(b"/"), b"/".to_vec());
}

#[test]
fn an_upload_is_the_header_and_the_bytes() {
    let mut out = Vec::new();
    let progress = upload(b"/home/u/notes.txt", b"hello world!!", 8, &mut out);
    assert_eq!(progress, Ok(vec![8, 13]));
    assert_eq!(out, b"PUT notes.txt 13\nhello world!!".to_vec());
}

#[test]
fn an_empty_path_is_not_uploaded() {
    let mut out = b"before".to_vec();
    assert_eq!(upload(b"", b"data", 8, &mut out), Err(UploadError::EmptyPath));
    assert_eq!(upload(b"  \0", b"data", 8, &mut out), Err(UploadError::EmptyPath));
    assert_eq!(upload(b"", b"", 8, &mut out), Err(UploadError::EmptyPath));
    assert_eq!(out, b"before".to_vec());
}

#[test]
fn the_header_of_an_upload_names_the_file_and_its_size() {
    assert_eq!(upload_header(b"/tmp/a.bin", 42), Ok(b"PUT a.bin 42\n".to_vec()));
    assert_eq!(upload_header(b"", 42), Err(UploadError::EmptyPath));
    assert_eq!(upload_header(b"/tmp/a.bin", 0), Err(UploadError::EmptyFile));
}

#[test]
fn an_empty_file_is_not_uploaded() {
    let mut out = b"before".to_vec();
    assert_eq!(upload(b"notes.txt", b"", 8, &mut out), Err(UploadError::EmptyFile));
    assert_eq!(out, b"before".to_vec());
}

#[test]
fn a_download_is_answered_with_header_and_bytes() {
    let path = resolve(b"/srv/store", b"docs/a.txt").unwrap();
    let mut out = Vec::new();
    let progress = get_file(&path, b"abcdefghij", 4, &mut out);
    assert_eq!(progress, vec![4, 8, 10]);
    assert_eq!(out, b"SEND docs/a.txt 10\nabcdefghij".to_vec());
    let mut out = Vec::new();
    assert_eq!(get_file(&path, b"", 4, &mut out), Vec::<u64>::new());
    assert_eq!(out, b"SEND docs/a.txt 0\n".to_vec());
}

#[test]
fn a_download_is_received() {
    let got = receive_files(b"SEND a.txt 5\nhelloextra", 2).unwrap();
    assert_eq!(got.name, b"a.txt".to_vec());
    assert_eq!(got.data, b"hello".to_vec());
    assert_eq!(got.reads, 3);
}

#[test]
fn a_download_without_a_header_is_refused() {
    assert_eq!(
        receive_files(b"Invalid Command", 8),
        Err(DownloadError::Header(ProtocolError::TokenCount))
    );
    assert_eq!(
        receive_files(b"PUT a 3\nabc", 8),
        Err(DownloadError::Header(ProtocolError::Verb))
    );
    assert_eq!(
        receive_files(b"SEND a x\nabc", 8),
        Err(DownloadError::Header(ProtocolError::Size))
    );
}

#[test]
fn a_download_that_ends_early_is_truncated() {
    assert_eq!(
        receive_files(b"SEND a.txt 5\nhel", 8),
        Err(DownloadError::Transfer(TransferError::Truncated { expected: 5, received: 3 }))
    );
}

fn serve(root: &[u8], wire: &[u8], buffer: usize) -> Vec<Action> {
    let mut session = Session::new(root.to_vec());
    let mut actions = Vec::new();
    let mut pos = 0;
    while pos < wire.len() {
        let limit = session.read_limit(buffer);
        assert!(limit > 0);
        let end = usize::min(wire.len(), pos + limit);
        actions.extend(session.on_read(&wire[pos..end]));
        pos = end;
    }
    actions
}

#[test]
fn what_is_uploaded_is_downloaded_byte_for_byte() {
    for size in [1usize, 2, 7, 8, 9, 64, 1000] {
        let content: Vec<u8> = (0..size).map(|i| (i * 31 % 251) as u8).collect();
        let mut wire = Vec::new();
        upload(b"/home/u/payload.bin", &content, 8, &mut wire).unwrap();

        let actions = serve(b"/srv/store", &wire, 32);
        let path = match &actions[0] {
            Action::CreateFile(path) => path,
            _ => panic!("the file is created first"),
        };
        assert_eq!(path.to_bytes(), b"/srv/store/payload.bin".to_vec());
        let mut stored = Vec::new();
        for action in &actions[1..actions.len() - 1] {
            match action {
                Action::Write(bytes) => stored.extend_from_slice(bytes),
                _ => panic!("only the payload is written"),
            }
        }
        assert_eq!(
            actions.last(),
            Some(&Action::Respond(b"File uploaded successfully\n".to_vec()))
        );
        assert_eq!(stored, content);

        let mut answer = Vec::new();
        get_file(path, &stored, 8, &mut answer);
        let got = receive_files(&answer, 8).unwrap();
        assert_eq!(got.name, b"payload.bin".to_vec());
        assert_eq!(got.data, content);
    }
}

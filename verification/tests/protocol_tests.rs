use zync::header::{put_bytes, send_bytes, ProtocolError, TransferHeader};
use zync::request::{parse_request, AllowedRequest, Command, Parsed, Request};

#[test]
fn a_header_line_is_written() {
    let header = TransferHeader { filename: b"notes.txt".to_vec(), size: 13 };
    assert_eq!(header.encode(&put_bytes()), b"PUT notes.txt 13\n".to_vec());
    assert_eq!(header.encode(&send_bytes()), b"SEND notes.txt 13\n".to_vec());
}

#[test]
fn a_header_line_is_read_back() {
    let header = TransferHeader { filename: b"a/b.bin".to_vec(), size: u64::MAX };
    let line = header.encode(&send_bytes());
    assert_eq!(TransferHeader::decode(&send_bytes(), &line), Ok(header));
}

#[test]
fn a_header_of_size_zero_is_legal() {
    let decoded = TransferHeader::decode(&put_bytes(), b"PUT empty 0\n");
    assert_eq!(decoded, Ok(TransferHeader { filename: b"empty".to_vec(), size: 0 }));
}

#[test]
fn padding_around_a_header_is_ignored() {
    let decoded = TransferHeader::decode(&send_bytes(), b"  SEND   f.txt   7 \r\n\0\0");
    assert_eq!(decoded, Ok(TransferHeader { filename: b"f.txt".to_vec(), size: 7 }));
}

#[test]
fn a_header_with_the_wrong_number_of_tokens_is_refused() {
    assert_eq!(TransferHeader::decode(&send_bytes(), b"SEND f.txt"), Err(ProtocolError::TokenCount));
    assert_eq!(
        TransferHeader::decode(&send_bytes(), b"SEND a b 3"),
        Err(ProtocolError::TokenCount)
    );
    assert_eq!(TransferHeader::decode(&send_bytes(), b""), Err(ProtocolError::TokenCount));
}

#[test]
fn a_header_with_another_verb_is_refused() {
    assert_eq!(TransferHeader::decode(&send_bytes(), b"PUT f.txt 3"), Err(ProtocolError::Verb));
    assert_eq!(TransferHeader::decode(&send_bytes(), b"SENDER f 3"), Err(ProtocolError::Verb));
}

#[test]
fn a_header_with_an_unreadable_size_is_refused() {
    assert_eq!(TransferHeader::decode(&send_bytes(), b"SEND f.txt x"), Err(ProtocolError::Size));
    assert_eq!(TransferHeader::decode(&send_bytes(), b"SEND f.txt -1"), Err(ProtocolError::Size));
    assert_eq!(
        TransferHeader::decode(&send_bytes(), b"SEND f.txt 18446744073709551616"),
        Err(ProtocolError::Size)
    );
}

#[test]
fn a_verb_is_the_first_token_of_a_line() {
    assert_eq!(AllowedRequest::from_str_slice("PUT a 1"), Some(AllowedRequest::Put));
    assert_eq!(AllowedRequest::from_str_slice("LIST"), Some(AllowedRequest::List));
    assert_eq!(AllowedRequest::from_str_slice("DELETE a"), Some(AllowedRequest::Delete));
    assert_eq!(AllowedRequest::from_str_slice("GET a"), Some(AllowedRequest::Get));
    assert_eq!(AllowedRequest::from_str_slice("  GET a \n"), Some(AllowedRequest::Get));
    assert_eq!(AllowedRequest::from_str_slice("\0\0LIST\0\0"), Some(AllowedRequest::List));
    assert_eq!(AllowedRequest::from_bytes(b"GET"), Some(AllowedRequest::Get));
}

#[test]
fn a_token_that_only_begins_with_a_verb_is_no_verb() {
    assert_eq!(AllowedRequest::from_str_slice("LISTING"), None);
    assert_eq!(AllowedRequest::from_str_slice("GETTING"), None);
    assert_eq!(AllowedRequest::from_str_slice("PUTX a 3"), None);
    assert_eq!(AllowedRequest::from_str_slice("DELETED x"), None);
    assert_eq!(AllowedRequest::from_bytes(b"PU"), None);
}

#[test]
fn what_is_none_of_the_four_words_is_no_verb() {
    assert_eq!(AllowedRequest::from_str_slice("get a"), None);
    assert_eq!(AllowedRequest::from_str_slice("HELLO"), None);
    assert_eq!(AllowedRequest::from_str_slice("a GET"), None);
    assert_eq!(AllowedRequest::from_str_slice(""), None);
    assert_eq!(AllowedRequest::from_str_slice(" \0 "), None);
    assert_eq!(AllowedRequest::from_token(b"LIST"), Some(AllowedRequest::List));
    assert_eq!(AllowedRequest::from_token(b"LIST "), None);
}

#[test]
fn verbs_are_written_as_on_the_wire() {
    assert_eq!(AllowedRequest::Get.to_text(), "GET");
    assert_eq!(AllowedRequest::Put.to_text(), "PUT");
    assert_eq!(AllowedRequest::Delete.to_text(), "DELETE");
    assert_eq!(AllowedRequest::List.to_text(), "LIST");
    assert_eq!(AllowedRequest::Delete.to_bytes(), b"DELETE".to_vec());
    assert_eq!(AllowedRequest::Put.tokens_taken(), 3);
    assert_eq!(AllowedRequest::Get.tokens_taken(), 2);
    assert_eq!(AllowedRequest::Delete.tokens_taken(), 2);
    assert_eq!(AllowedRequest::List.tokens_taken(), 1);
}

#[test]
fn a_line_is_cut_into_a_request() {
    let request = Request::tokenize(b"\0\0PUT notes.txt 13\n\0").unwrap();
    assert_eq!(request.verb, AllowedRequest::Put);
    assert_eq!(
        request.tokens,
        vec![b"PUT".to_vec(), b"notes.txt".to_vec(), b"13".to_vec()]
    );
    assert_eq!(Request::tokenize(b"HELLO there"), None);
}

#[test]
fn commands_are_parsed() {
    assert_eq!(
        parse_request(b"PUT notes.txt 13"),
        Parsed::Command(Command::Put { name: b"notes.txt".to_vec(), size: 13 })
    );
    assert_eq!(
        parse_request(b"GET notes.txt\n"),
        Parsed::Command(Command::Get { name: b"notes.txt".to_vec() })
    );
    assert_eq!(parse_request(b"LIST\0\0\0\0"), Parsed::Command(Command::List));
    assert_eq!(
        parse_request(b"DELETE notes.txt"),
        Parsed::Command(Command::Delete { name: b"notes.txt".to_vec() })
    );
}

#[test]
fn a_line_without_a_verb_is_unknown() {
    assert_eq!(parse_request(b"HELLO"), Parsed::Unknown);
    assert_eq!(parse_request(b""), Parsed::Unknown);
    assert_eq!(parse_request(b"list"), Parsed::Unknown);
}

#[test]
fn a_wrong_number_of_tokens_is_a_protocol_error() {
    assert_eq!(parse_request(b"PUT notes.txt"), Parsed::Invalid(ProtocolError::TokenCount));
    assert_eq!(parse_request(b"PUT a b 3"), Parsed::Invalid(ProtocolError::TokenCount));
    assert_eq!(parse_request(b"GET"), Parsed::Invalid(ProtocolError::TokenCount));
    assert_eq!(parse_request(b"GET a b"), Parsed::Invalid(ProtocolError::TokenCount));
    assert_eq!(parse_request(b"LIST all"), Parsed::Invalid(ProtocolError::TokenCount));
    assert_eq!(parse_request(b"DELETE"), Parsed::Invalid(ProtocolError::TokenCount));
}

#[test]
fn a_line_whose_first_token_only_begins_with_a_verb_is_unknown() {
    assert_eq!(parse_request(b"PUTTER a 3"), Parsed::Unknown);
    assert_eq!(parse_request(b"PUTX a 3"), Parsed::Unknown);
    assert_eq!(parse_request(b"GETS a"), Parsed::Unknown);
    assert_eq!(parse_request(b"GETTING"), Parsed::Unknown);
    assert_eq!(parse_request(b"LISTING"), Parsed::Unknown);
    assert_eq!(parse_request(b"DELETED a"), Parsed::Unknown);
    assert_eq!(Request::tokenize(b"LISTING"), None);
}

#[test]
fn a_request_whose_first_token_is_not_its_verb_is_a_protocol_error() {
    let request = Request {
        verb: AllowedRequest::Get,
        tokens: vec![b"GETS".to_vec(), b"a".to_vec()],
    };
    assert_eq!(request.command(), Err(ProtocolError::Verb));
    let request = Request {
        verb: AllowedRequest::Put,
        tokens: vec![b"GET".to_vec(), b"a".to_vec(), b"3".to_vec()],
    };
    assert_eq!(request.command(), Err(ProtocolError::Verb));
}

#[test]
fn an_unreadable_size_is_a_protocol_error() {
    assert_eq!(parse_request(b"PUT a many"), Parsed::Invalid(ProtocolError::Size));
    assert_eq!(parse_request(b"PUT a 1.5"), Parsed::Invalid(ProtocolError::Size));
}

#[test]
fn a_request_is_held_against_its_verb() {
    let request = Request { verb: AllowedRequest::Get, tokens: vec![b"GET".to_vec()] };
    assert_eq!(request.command(), Err(ProtocolError::TokenCount));
    let request =
        Request { verb: AllowedRequest::List, tokens: vec![b"LIST".to_vec()] };
    assert_eq!(request.command(), Ok(Command::List));
}

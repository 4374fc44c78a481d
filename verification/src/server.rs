//! The serving side around a session: the acceptor's turns, the handlers of
//! an upload, a download and a listing, and the address to listen on.

use vstd::prelude::*;
use vstd::string::StringSliceAdditionalSpecFns;
use vstd::string::StrSliceExecFns;
use vstd::utf8::encode_utf8;
use crate::decimal::{decimal_digits, parse_decimal, parse_u64, push_decimal};
use crate::header::{
    header_from_tokens, header_line, header_of_tokens, put_bytes, put_word, send_bytes, send_word,
    TransferHeader,
};
use crate::session::{
    action_views, invalid_bytes, invalid_response, path_view, uploaded_bytes, uploaded_response,
    Action, ActionView, PathView,
};
use crate::storage::{relative_segments, resolve, StoragePath};
use crate::text::{copy_range, split_tokens, tokens, trim, trim_bytes, NEWLINE};
use crate::transfer::{
    chunk_count, chunk_len, marks_progress, send_chunks, Transfer, TransferError,
};

verus! {

/// Capacity of the buffer that a connection reads into.
pub const BUFFER_SIZE: usize = 8192;

/// Number of workers that serve connections.
pub const POOL_SIZE: usize = 6;

/// Seconds after which a read or a write on a connection is given up.
pub const IO_TIMEOUT_SECONDS: u64 = 30;

/// The lowest port that may be listened on.
pub const MIN_PORT: u16 = 1024;

/// The acceptor: it binds, then hands every connection that it accepts to the
/// worker pool.
#[derive(Debug, PartialEq, Eq)]
pub struct TCP;

/// Where the acceptor stands.
#[derive(Clone, Copy, Debug, PartialEq, Eq, Structural)]
pub enum AcceptorState {
    /// Not bound yet.
    Binding,
    /// Bound; accepting connections.
    Listening,
    /// The bind failed; nothing is accepted.
    Failed,
}

/// What happened at the listening socket.
#[derive(Clone, Copy, Debug, PartialEq, Eq, Structural)]
pub enum AcceptorEvent {
    /// The socket is bound to its address.
    Bound,
    /// The address could not be bound.
    BindFailed,
    /// A connection came in; the number tells connections apart.
    Accepted(u64),
    /// Accepting a connection failed.
    AcceptFailed,
}

/// What the acceptor's loop is to do next.
#[derive(Clone, Copy, Debug, PartialEq, Eq, Structural)]
pub enum AcceptorAction {
    /// Wait for the next connection.
    Accept,
    /// Hand this connection to the worker pool as a job, then wait for the next.
    Submit(u64),
    /// Report the failed accept, then wait for the next connection.
    Report,
    /// Give up and return the bind failure to the caller.
    Abort,
}

/// The acceptor's rule: a bind failure is fatal, a failed accept is not, and
/// every accepted connection becomes a job.
pub open spec fn acceptor_step(state: AcceptorState, event: AcceptorEvent) -> (
    AcceptorState,
    AcceptorAction,
) {
    match state {
        AcceptorState::Binding => match event {
            AcceptorEvent::Bound => (AcceptorState::Listening, AcceptorAction::Accept),
            _ => (AcceptorState::Failed, AcceptorAction::Abort),
        },
        AcceptorState::Listening => match event {
            AcceptorEvent::Accepted(id) => (AcceptorState::Listening, AcceptorAction::Submit(id)),
            AcceptorEvent::AcceptFailed => (AcceptorState::Listening, AcceptorAction::Report),
            _ => (AcceptorState::Listening, AcceptorAction::Accept),
        },
        AcceptorState::Failed => (AcceptorState::Failed, AcceptorAction::Abort),
    }
}

impl TCP {
    /// One turn of the acceptor's loop.
    pub fn run(state: AcceptorState, event: AcceptorEvent) -> (r: (AcceptorState, AcceptorAction))
        ensures
            r == acceptor_step(state, event),
    {
        match state {
            AcceptorState::Binding => match event {
                AcceptorEvent::Bound => (AcceptorState::Listening, AcceptorAction::Accept),
                _ => (AcceptorState::Failed, AcceptorAction::Abort),
            },
            AcceptorState::Listening => match event {
                AcceptorEvent::Accepted(id) => (
                    AcceptorState::Listening,
                    AcceptorAction::Submit(id),
                ),
                AcceptorEvent::AcceptFailed => (AcceptorState::Listening, AcceptorAction::Report),
                _ => (AcceptorState::Listening, AcceptorAction::Accept),
            },
            AcceptorState::Failed => (AcceptorState::Failed, AcceptorAction::Abort),
        }
    }
}

/// Once it listens, the acceptor never stops: whatever happens at the socket,
/// it goes on listening, and a connection that was accepted is submitted.
pub proof fn lemma_acceptor_keeps_listening(event: AcceptorEvent)
    ensures
        acceptor_step(AcceptorState::Listening, event).0 == AcceptorState::Listening,
        acceptor_step(AcceptorState::Listening, event).1 != AcceptorAction::Abort,
        event is Accepted ==> acceptor_step(AcceptorState::Listening, event).1
            == AcceptorAction::Submit(event->Accepted_0),
{
}

/// Why an input is no port to listen on.
#[derive(Clone, Copy, Debug, PartialEq, Eq, Structural)]
pub enum PortError {
    /// Not a decimal number of 16 bits.
    Invalid,
    /// Below 1024.
    OutOfRange,
}

/// The port that an input stands for: a number from 1024 to 65535.
pub open spec fn port_of(input: Seq<u8>) -> Result<u16, PortError> {
    match parse_decimal(input) {
        Some(n) => if n > 65535 {
            Err(PortError::Invalid)
        } else if n < MIN_PORT {
            Err(PortError::OutOfRange)
        } else {
            Ok(n as u16)
        },
        None => Err(PortError::Invalid),
    }
}

/// Reads the port to listen on.
pub fn parse_port(input: &[u8]) -> (r: Result<u16, PortError>)
    ensures
        r == port_of(input@),
{
    match parse_u64(input) {
        Some(n) => {
            if n > 65535 {
                Err(PortError::Invalid)
            } else if n < MIN_PORT as u64 {
                Err(PortError::OutOfRange)
            } else {
                Ok(n as u16)
            }
        },
        None => Err(PortError::Invalid),
    }
}

/// The address of every interface, in front of the port.
pub open spec fn any_interface() -> Seq<u8> {
    "0.0.0.0:".spec_bytes()
}

/// The address to listen on: every interface, at `port`.
pub fn listen_address(port: u16) -> (r: Vec<u8>)
    ensures
        r@ == any_interface() + decimal_digits(port as nat),
{
    let mut out = "0.0.0.0:".as_bytes_vec();
    push_decimal(port as u64, &mut out);
    out
}

/// What the header line of an upload asks for: the segments below the root
/// to store under, and the declared size. A line that is no well-formed PUT
/// line asks for nothing, and neither does one whose name is refused.
pub open spec fn put_target(line: Seq<u8>) -> Option<(Seq<Seq<u8>>, u64)> {
    match header_of_tokens(put_word(), tokens(trim(line))) {
        Ok(header) => match relative_segments(header.filename) {
            Ok(relative) => Some((relative, header.size)),
            Err(_) => None,
        },
        Err(_) => None,
    }
}

/// The writes in which a payload reaches its file through a buffer of
/// `buffer_len` bytes: one for each chunk, every chunk full but the last.
pub open spec fn write_chunks(data: Seq<u8>, buffer_len: nat) -> Seq<ActionView>
    decreases data.len(),
{
    if data.len() == 0 || buffer_len == 0 {
        Seq::empty()
    } else {
        let k = chunk_len(data.len(), buffer_len) as int;
        seq![ActionView::Write(data.take(k))] + write_chunks(data.skip(k), buffer_len)
    }
}

/// How an upload ended that was not cut short.
#[derive(Clone, Copy, Debug, PartialEq, Eq, Structural)]
pub struct PutDone {
    /// Reads of the payload that were made.
    pub reads: usize,
    /// Bytes of `payload` that were taken; what follows them is left for the
    /// next command.
    pub consumed: usize,
}

/// What an upload leads to: the actions owed, in order, and how it ended.
///
/// A line that is no well-formed PUT line, or whose name is refused, is
/// answered with the error line; no file is touched, no byte of the payload
/// is read, and the connection stays open. Else the file is created, with
/// its missing parent directories, and exactly as many bytes as the line
/// declares are written to it, chunk by chunk; the acknowledgment follows the
/// last byte. A payload that ends before the declared size is a truncated
/// transfer: what arrived was written, and nothing is acknowledged.
pub open spec fn put_of(root: Seq<u8>, line: Seq<u8>, payload: Seq<u8>, buffer_len: nat) -> (
    Seq<ActionView>,
    Result<PutDone, TransferError>,
) {
    match put_target(line) {
        None => (
            seq![ActionView::Respond(invalid_response())],
            Ok(PutDone { reads: 0, consumed: 0 }),
        ),
        Some((relative, size)) => {
            let create = ActionView::CreateFile(PathView { root, relative });
            if size <= payload.len() {
                (
                    seq![create] + write_chunks(payload.take(size as int), buffer_len) + seq![
                        ActionView::Respond(uploaded_response()),
                    ],
                    Ok(
                        PutDone {
                            reads: chunk_count(size as nat, buffer_len) as usize,
                            consumed: size as usize,
                        },
                    ),
                )
            } else {
                (
                    seq![create] + write_chunks(payload, buffer_len),
                    Err(
                        TransferError::Truncated {
                            expected: size,
                            received: payload.len() as u64,
                        },
                    ),
                )
            }
        },
    }
}

fn push_action(actions: &mut Vec<Action>, action: Action)
    ensures
        action_views(final(actions)@) == action_views(old(actions)@).push(action@),
{
    actions.push(action);
    assert(action_views(actions@) =~= action_views(old(actions)@).push(action@));
}

/// Writes `data` to the file of an upload, chunk by chunk through a buffer of
/// `buffer_len` bytes, and returns the number of chunks.
fn write_payload(data: &[u8], buffer_len: usize, actions: &mut Vec<Action>) -> (reads: usize)
    requires
        buffer_len > 0,
    ensures
        action_views(final(actions)@) == action_views(old(actions)@) + write_chunks(
            data@,
            buffer_len as nat,
        ),
        reads == chunk_count(data@.len(), buffer_len as nat),
{
    let len = data.len();
    let mut transfer = Transfer::new(len as u64);
    let mut reads: usize = 0;
    let mut pos: usize = 0;
    let ghost before = action_views(actions@);
    let ghost all = write_chunks(data@, buffer_len as nat);
    assert(data@.skip(0) =~= data@);
    while !transfer.is_complete()
        invariant
            buffer_len > 0,
            len == data@.len(),
            transfer.total() == len,
            transfer.transferred() == pos,
            pos <= len,
            reads <= pos,
            reads + chunk_count((len - pos) as nat, buffer_len as nat) == chunk_count(
                len as nat,
                buffer_len as nat,
            ),
            all == write_chunks(data@, buffer_len as nat),
            action_views(actions@) + write_chunks(data@.skip(pos as int), buffer_len as nat)
                == before + all,
        decreases len - pos,
    {
        let ghost rest = data@.skip(pos as int);
        let ghost sofar = action_views(actions@);
        let n = transfer.next_len(buffer_len);
        let chunk = copy_range(data, pos, pos + n);
        let moved = transfer.advance(n);
        assert(moved is Ok);
        assert(chunk@ =~= rest.take(n as int));
        assert(rest.skip(n as int) =~= data@.skip(pos + n));
        let write = Action::Write(chunk);
        push_action(actions, write);
        proof {
            let later = write_chunks(rest.skip(n as int), buffer_len as nat);
            assert(write_chunks(rest, buffer_len as nat) == seq![write@] + later);
            assert(sofar.push(write@) + later =~= sofar + (seq![write@] + later));
        }
        pos = pos + n;
        reads = reads + 1;
    }
    proof {
        assert(data@.skip(pos as int).len() == 0);
        assert(action_views(actions@) + Seq::<ActionView>::empty() =~= action_views(actions@));
    }
    reads
}

/// Handles an upload: the line that asks for it, and the bytes that follow
/// the line, as far as they have arrived. The actions owed are appended to
/// `actions`, in order; the payload passes through a buffer of `buffer_len`
/// bytes.
pub fn put(
    root: &[u8],
    line: &[u8],
    payload: &[u8],
    buffer_len: usize,
    actions: &mut Vec<Action>,
) -> (r: Result<PutDone, TransferError>)
    requires
        buffer_len > 0,
    ensures
        action_views(final(actions)@) == action_views(old(actions)@) + put_of(
            root@,
            line@,
            payload@,
            buffer_len as nat,
        ).0,
        r == put_of(root@, line@, payload@, buffer_len as nat).1,
{
    let ghost before = action_views(actions@);
    let trimmed = trim_bytes(line);
    let toks = split_tokens(trimmed.as_slice());
    let target = match header_from_tokens(put_bytes().as_slice(), &toks) {
        Ok(header) => match resolve(root, header.filename.as_slice()) {
            Ok(path) => Some((path, header.size)),
            Err(_) => None,
        },
        Err(_) => None,
    };
    match target {
        None => {
            push_action(actions, Action::Respond(invalid_bytes()));
            assert(before.push(ActionView::Respond(invalid_response())) =~= before + seq![
                ActionView::Respond(invalid_response()),
            ]);
            Ok(PutDone { reads: 0, consumed: 0 })
        },
        Some((path, size)) => {
            let ghost create = ActionView::CreateFile(path_view(path));
            push_action(actions, Action::CreateFile(path));
            let available = payload.len();
            let taken: usize = if size <= available as u64 {
                size as usize
            } else {
                available
            };
            let data = vstd::slice::slice_subrange(payload, 0, taken);
            assert(data@ =~= payload@.take(taken as int));
            let reads = write_payload(data, buffer_len, actions);
            let ghost writes = write_chunks(data@, buffer_len as nat);
            if (taken as u64) < size {
                assert(data@ =~= payload@);
                assert(before.push(create) + writes =~= before + (seq![create] + writes));
                return Err(
                    TransferError::Truncated { expected: size, received: taken as u64 },
                );
            }
            push_action(actions, Action::Respond(uploaded_bytes()));
            assert((before.push(create) + writes).push(ActionView::Respond(uploaded_response()))
                =~= before + (seq![create] + writes + seq![
                ActionView::Respond(uploaded_response()),
            ]));
            Ok(PutDone { reads, consumed: taken })
        },
    }
}

/// What a download puts on the wire: the header line, then the file's bytes.
pub open spec fn download_wire(name: Seq<u8>, content: Seq<u8>) -> Seq<u8> {
    header_line(send_word(), name, content.len() as u64) + content
}

/// Answers a download of the file at `path`, whose bytes are `content`:
/// appends to `out` the header line and the bytes, chunk by chunk through a
/// buffer of `buffer_len` bytes, and returns the progress: the bytes sent so
/// far, noted after each chunk.
pub fn get_file(path: &StoragePath, content: &[u8], buffer_len: usize, out: &mut Vec<u8>) -> (progress:
    Vec<u64>)
    requires
        buffer_len > 0,
    ensures
        final(out)@ == old(out)@ + download_wire(path.name(), content@),
        marks_progress(progress@, content@.len(), buffer_len as nat),
{
    let header = TransferHeader { filename: path.relative_bytes(), size: content.len() as u64 };
    let line = header.encode(send_bytes().as_slice());
    out.extend_from_slice(line.as_slice());
    let progress = send_chunks(content, buffer_len, out);
    assert(out@ =~= old(out)@ + download_wire(path.name(), content@));
    progress
}

/// The line that opens the answer to a listing.
pub open spec fn listing_intro() -> Seq<u8> {
    "Listing storage items...\n".spec_bytes()
}

/// The sixteen digits of a number to the base sixteen, in lower case.
pub open spec fn hex_digit(n: int) -> char {
    seq!['0', '1', '2', '3', '4', '5', '6', '7', '8', '9', 'a', 'b', 'c', 'd', 'e', 'f'][n]
}

/// A character as it stands inside a JSON string: the quote and the
/// backslash behind a backslash, the control characters as their short
/// escape or as `\u00` and two digits, every other character as it is.
pub open spec fn json_char(c: char) -> Seq<char> {
    if c == '"' {
        seq!['\\', '"']
    } else if c == '\\' {
        seq!['\\', '\\']
    } else if c as u32 == 8 {
        seq!['\\', 'b']
    } else if c as u32 == 9 {
        seq!['\\', 't']
    } else if c as u32 == 10 {
        seq!['\\', 'n']
    } else if c as u32 == 12 {
        seq!['\\', 'f']
    } else if c as u32 == 13 {
        seq!['\\', 'r']
    } else if (c as u32) < 32 {
        seq!['\\', 'u', '0', '0', hex_digit(c as int / 16), hex_digit(c as int % 16)]
    } else {
        seq![c]
    }
}

/// The characters of a text as they stand inside a JSON string.
pub open spec fn json_chars(text: Seq<char>) -> Seq<char>
    decreases text.len(),
{
    if text.len() == 0 {
        Seq::empty()
    } else {
        json_char(text[0]) + json_chars(text.skip(1))
    }
}

/// A text as a JSON string: between quotes.
pub open spec fn json_string(text: Seq<char>) -> Seq<char> {
    seq!['"'] + json_chars(text) + seq!['"']
}

/// The texts as JSON strings with a comma between each two.
pub open spec fn json_items(names: Seq<Seq<char>>) -> Seq<char>
    decreases names.len(),
{
    if names.len() == 0 {
        Seq::empty()
    } else if names.len() == 1 {
        json_string(names[0])
    } else {
        json_items(names.drop_last()) + seq![','] + json_string(names.last())
    }
}

/// The JSON text of an array of strings, in compact form: the strings
/// between brackets, with commas and nothing else between them.
pub open spec fn json_array_text(names: Seq<Seq<char>>) -> Seq<char> {
    seq!['['] + json_items(names) + seq![']']
}

/// A character that stands for itself inside a JSON string.
pub open spec fn is_plain_char(c: char) -> bool {
    c != '"' && c != '\\' && c as u32 >= 32
}

/// A text of characters that stand for themselves is written as it is.
pub proof fn lemma_json_of_plain_text(text: Seq<char>)
    requires
        forall|i: int| 0 <= i < text.len() ==> is_plain_char(#[trigger] text[i]),
    ensures
        json_chars(text) == text,
        json_string(text) == seq!['"'] + text + seq!['"'],
    decreases text.len(),
{
    if text.len() == 0 {
        assert(json_chars(text) =~= text);
    } else {
        let rest = text.skip(1);
        assert forall|i: int| 0 <= i < rest.len() implies is_plain_char(#[trigger] rest[i]) by {
            assert(rest[i] == text[i + 1]);
        }
        lemma_json_of_plain_text(rest);
        assert(is_plain_char(text[0]));
        assert(seq![text[0]] + rest =~= text);
    }
}

/// The listing of two names whose characters stand for themselves: the two
/// names between quotes, a comma between them, between brackets.
pub proof fn lemma_json_of_two_names(first: Seq<char>, second: Seq<char>)
    requires
        forall|i: int| 0 <= i < first.len() ==> is_plain_char(#[trigger] first[i]),
        forall|i: int| 0 <= i < second.len() ==> is_plain_char(#[trigger] second[i]),
    ensures
        json_array_text(seq![first, second]) == seq!['[', '"'] + first + seq!['"', ',', '"']
            + second + seq!['"', ']'],
{
    let names = seq![first, second];
    lemma_json_of_plain_text(first);
    lemma_json_of_plain_text(second);
    assert(names.drop_last() =~= seq![first]);
    assert(json_items(names.drop_last()) == json_string(first));
    assert(json_array_text(names) =~= seq!['[', '"'] + first + seq!['"', ',', '"'] + second
        + seq!['"', ']']);
}

/// The names of a listing as JSON text. Calls `serde_json`: `Value::from`
/// makes an array value of the names, and the `Display` of `Value` writes it
/// in compact form: an opening bracket, each name as a string between quotes
/// with its quotes, backslashes and control characters escaped, commas
/// between the strings, a closing bracket.
#[verifier::external_body]
fn json_array(names: &Vec<String>) -> (r: String)
    ensures
        r@ == json_array_text(names.deep_view()),
{
    serde_json::Value::from(names.clone()).to_string()
}

/// The answer to a listing whose names are written as `json`.
pub open spec fn listing_of(json: Seq<char>) -> Seq<u8> {
    listing_intro() + encode_utf8(json) + seq![NEWLINE]
}

/// The answer to a listing, given the JSON text of the names: the opening
/// line, the text, a line feed.
pub fn list_response(json: &str) -> (r: Vec<u8>)
    ensures
        r@ == listing_of(json@),
{
    let mut out = "Listing storage items...\n".as_bytes_vec();
    out.extend_from_slice(json.as_bytes());
    out.push(NEWLINE);
    out
}

/// Answers a listing of the storage root, whose entries have these names, in
/// the order in which the directory gave them.
pub fn list_storage(names: &Vec<String>) -> (r: Vec<u8>)
    ensures
        r@ == listing_of(json_array_text(names.deep_view())),
{
    let json = json_array(names);
    list_response(json.as_str())
}

/// Two listings of a directory that did not change hold the same set of
/// names, in whatever order the directory gave them each time; where it gave
/// them in the same order, the two answers are the same, byte for byte.
pub proof fn lemma_listing_same_names(first: Seq<Seq<char>>, second: Seq<Seq<char>>)
    requires
        first.to_multiset() == second.to_multiset(),
    ensures
        first.to_set() == second.to_set(),
        first.len() == second.len(),
        first == second ==> listing_of(json_array_text(first)) == listing_of(
            json_array_text(second),
        ),
{
    first.to_multiset_ensures();
    second.to_multiset_ensures();
    assert forall|name: Seq<char>| first.to_set().contains(name) == second.to_set().contains(
        name,
    ) by {
        assert(first.contains(name) <==> first.to_multiset().count(name) > 0);
        assert(second.contains(name) <==> second.to_multiset().count(name) > 0);
    }
    assert(first.to_set() =~= second.to_set());
}

} // verus!

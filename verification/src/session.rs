//! One connection, from the server's side: what to do with the bytes that
//! were read.
//!
//! The caller owns the socket and the files. It reads at most
//! [`Session::read_limit`] bytes, hands them to [`Session::on_read`], carries
//! out the actions that come back, in order, and reads again. A read of no
//! bytes means that the peer has closed the connection.
//!
//! While no upload is under way, what was read is taken line by line: a line
//! ends at a line feed or where the bytes end. Behind the header line of an
//! upload the payload follows at once, and as many bytes as the header
//! declared belong to it, wherever the reads happened to cut the stream.

use vstd::prelude::*;
use vstd::string::StringSliceAdditionalSpecFns;
use vstd::string::StrSliceExecFns;
use vstd::slice::slice_subrange;
use crate::request::{parse_line, parse_request, Command, CommandView, Parsed, ParsedView};
use crate::storage::{relative_segments, resolve, StoragePath};
use crate::text::{after_first_line, copy_range, first_line, lemma_line_len_bounds, split_line};
use crate::transfer::{chunk_len, Transfer, TransferError};

verus! {

/// The error line: the verb was known, the command was not well formed or
/// named a path that cannot be served.
pub open spec fn invalid_response() -> Seq<u8> {
    "Invalid Command".spec_bytes()
}

/// The acknowledgment of an upload.
pub open spec fn uploaded_response() -> Seq<u8> {
    "File uploaded successfully\n".spec_bytes()
}

/// A path below the storage root, as plain values.
pub struct PathView {
    pub root: Seq<u8>,
    pub relative: Seq<Seq<u8>>,
}

pub open spec fn path_view(p: StoragePath) -> PathView {
    PathView { root: p.root(), relative: p.relative() }
}

/// Where a connection stands between two reads.
pub enum SessionView {
    /// The next bytes are a command line.
    Idle,
    /// The next bytes belong to the payload of an upload of `total` bytes, of
    /// which `done` have arrived.
    Receiving { total: u64, done: u64 },
    /// Nothing more is read.
    Closed,
}

/// What the caller is to do.
#[derive(Debug, PartialEq, Eq)]
pub enum Action {
    /// Write these bytes to the peer and flush.
    Respond(Vec<u8>),
    /// Create the missing parent directories and the file, empty; the payload
    /// of an upload follows in `Write` actions.
    CreateFile(StoragePath),
    /// Append these bytes to the file of the upload under way.
    Write(Vec<u8>),
    /// Send this file to the peer: its header, then its bytes.
    SendFile(StoragePath),
    /// Send the listing of the storage root to the peer.
    ListStorage,
    /// Stop serving this connection: the peer closed it, in the middle of an
    /// upload if an error is given.
    Close(Option<TransferError>),
}

pub enum ActionView {
    Respond(Seq<u8>),
    CreateFile(PathView),
    Write(Seq<u8>),
    SendFile(PathView),
    ListStorage,
    Close(Option<TransferError>),
}

impl View for Action {
    type V = ActionView;

    open spec fn view(&self) -> ActionView {
        match self {
            Action::Respond(b) => ActionView::Respond(b@),
            Action::CreateFile(p) => ActionView::CreateFile(path_view(*p)),
            Action::Write(b) => ActionView::Write(b@),
            Action::SendFile(p) => ActionView::SendFile(path_view(*p)),
            Action::ListStorage => ActionView::ListStorage,
            Action::Close(e) => ActionView::Close(*e),
        }
    }
}

pub open spec fn action_views(v: Seq<Action>) -> Seq<ActionView> {
    Seq::new(v.len(), |i: int| v[i]@)
}

/// What one command line leads to: the state behind it and the actions owed.
pub open spec fn dispatch(root: Seq<u8>, line: Seq<u8>) -> (SessionView, Seq<ActionView>) {
    match parse_line(line) {
        ParsedView::Unknown => (SessionView::Idle, Seq::empty()),
        ParsedView::Invalid(_) => (SessionView::Idle, seq![ActionView::Respond(invalid_response())]),
        ParsedView::Command(CommandView::Put { name, size }) => match relative_segments(name) {
            Err(_) => (SessionView::Idle, seq![ActionView::Respond(invalid_response())]),
            Ok(relative) => if size == 0 {
                (
                    SessionView::Idle,
                    seq![
                        ActionView::CreateFile(PathView { root, relative }),
                        ActionView::Respond(uploaded_response()),
                    ],
                )
            } else {
                (
                    SessionView::Receiving { total: size, done: 0 },
                    seq![ActionView::CreateFile(PathView { root, relative })],
                )
            },
        },
        ParsedView::Command(CommandView::Get { name }) => match relative_segments(name) {
            Err(_) => (SessionView::Idle, seq![ActionView::Respond(invalid_response())]),
            Ok(relative) => (
                SessionView::Idle,
                seq![ActionView::SendFile(PathView { root, relative })],
            ),
        },
        ParsedView::Command(CommandView::List) => (
            SessionView::Idle,
            seq![ActionView::ListStorage],
        ),
        ParsedView::Command(CommandView::Delete { name }) => (SessionView::Idle, Seq::empty()),
    }
}

/// What a run of bytes leads to, from a given state: the state behind the
/// last byte and the actions owed, in order.
pub open spec fn consume(root: Seq<u8>, state: SessionView, input: Seq<u8>) -> (
    SessionView,
    Seq<ActionView>,
)
    decreases input.len(),
{
    if input.len() == 0 {
        (state, Seq::empty())
    } else {
        match state {
            SessionView::Closed => (state, Seq::empty()),
            SessionView::Receiving { total, done } => {
                let k = chunk_len((total - done) as nat, input.len()) as int;
                if k == 0 {
                    (state, Seq::empty())
                } else if done + k == total {
                    let next = consume(root, SessionView::Idle, input.skip(k));
                    (
                        next.0,
                        seq![
                            ActionView::Write(input.take(k)),
                            ActionView::Respond(uploaded_response()),
                        ] + next.1,
                    )
                } else {
                    (
                        SessionView::Receiving { total, done: (done + k) as u64 },
                        seq![ActionView::Write(input.take(k))],
                    )
                }
            },
            SessionView::Idle => {
                proof {
                    lemma_line_len_bounds(input);
                }
                let first = dispatch(root, first_line(input));
                let next = consume(root, first.0, after_first_line(input));
                (next.0, first.1 + next.1)
            },
        }
    }
}

/// What a read leads to. A read of no bytes is the peer's close: a clean end
/// between two commands, a truncated transfer in the middle of an upload.
pub open spec fn react(root: Seq<u8>, state: SessionView, input: Seq<u8>) -> (
    SessionView,
    Seq<ActionView>,
) {
    if input.len() == 0 {
        match state {
            SessionView::Idle => (SessionView::Closed, seq![ActionView::Close(None)]),
            SessionView::Receiving { total, done } => (
                SessionView::Closed,
                seq![
                    ActionView::Close(
                        Some(TransferError::Truncated { expected: total, received: done }),
                    ),
                ],
            ),
            SessionView::Closed => (SessionView::Closed, Seq::empty()),
        }
    } else {
        consume(root, state, input)
    }
}

/// How many bytes the next read may ask for.
pub open spec fn read_limit_of(state: SessionView, buffer_len: usize) -> nat {
    match state {
        SessionView::Idle => buffer_len as nat,
        SessionView::Receiving { total, done } => chunk_len(
            (total - done) as nat,
            buffer_len as nat,
        ),
        SessionView::Closed => 0,
    }
}

/// The state of one connection.
#[derive(Debug, PartialEq, Eq)]
pub struct Session {
    root: Vec<u8>,
    receiving: Option<Transfer>,
    closed: bool,
}

pub open spec fn state_of(receiving: Option<Transfer>, closed: bool) -> SessionView {
    if closed {
        SessionView::Closed
    } else {
        match receiving {
            Some(t) => SessionView::Receiving { total: t.total(), done: t.transferred() },
            None => SessionView::Idle,
        }
    }
}

pub fn invalid_bytes() -> (r: Vec<u8>)
    ensures
        r@ == invalid_response(),
{
    "Invalid Command".as_bytes_vec()
}

pub fn uploaded_bytes() -> (r: Vec<u8>)
    ensures
        r@ == uploaded_response(),
{
    "File uploaded successfully\n".as_bytes_vec()
}

fn one(a: Action) -> (r: Vec<Action>)
    ensures
        action_views(r@) == seq![a@],
{
    let mut v: Vec<Action> = Vec::new();
    v.push(a);
    assert(action_views(v@) =~= seq![a@]);
    v
}

fn none() -> (r: Vec<Action>)
    ensures
        action_views(r@) == Seq::<ActionView>::empty(),
{
    let v: Vec<Action> = Vec::new();
    assert(action_views(v@) =~= Seq::<ActionView>::empty());
    v
}

/// Handles one command line: what is owed to the peer or asked of the file
/// system, and the upload that begins, if one does.
pub fn dispatch_line(root: &[u8], line: &[u8]) -> (r: (Option<Transfer>, Vec<Action>))
    ensures
        state_of(r.0, false) == dispatch(root@, line@).0,
        action_views(r.1@) == dispatch(root@, line@).1,
        r.0 is Some ==> r.0->Some_0.transferred() < r.0->Some_0.total(),
{
    match parse_request(line) {
        Parsed::Unknown => (None, none()),
        Parsed::Invalid(_) => (None, one(Action::Respond(invalid_bytes()))),
        Parsed::Command(Command::Put { name, size }) => match resolve(root, name.as_slice()) {
            Err(_) => (None, one(Action::Respond(invalid_bytes()))),
            Ok(path) => {
                let ghost pv = path_view(path);
                let mut actions = one(Action::CreateFile(path));
                if size == 0 {
                    let ghost before = actions@;
                    let ack = Action::Respond(uploaded_bytes());
                    actions.push(ack);
                    assert(action_views(actions@) =~= action_views(before).push(ack@));
                    assert(action_views(actions@) =~= seq![
                        ActionView::CreateFile(pv),
                        ActionView::Respond(uploaded_response()),
                    ]);
                    (None, actions)
                } else {
                    (Some(Transfer::new(size)), actions)
                }
            },
        },
        Parsed::Command(Command::Get { name }) => match resolve(root, name.as_slice()) {
            Err(_) => (None, one(Action::Respond(invalid_bytes()))),
            Ok(path) => (None, one(Action::SendFile(path))),
        },
        Parsed::Command(Command::List) => (None, one(Action::ListStorage)),
        Parsed::Command(Command::Delete { name }) => (None, none()),
    }
}

impl Session {
    #[verifier::type_invariant]
    spec fn consistent(&self) -> bool {
        match self.receiving {
            Some(t) => !self.closed && t.transferred() < t.total(),
            None => true,
        }
    }

    /// The storage root that names are resolved under.
    pub closed spec fn root(&self) -> Seq<u8> {
        self.root@
    }

    /// Where the connection stands.
    pub closed spec fn state(&self) -> SessionView {
        state_of(self.receiving, self.closed)
    }

    /// A connection that was just accepted: the first bytes are a command line.
    pub fn new(root: Vec<u8>) -> (s: Session)
        ensures
            s.root() == root@,
            s.state() == SessionView::Idle,
    {
        Session { root, receiving: None, closed: false }
    }

    /// Whether the connection is done with.
    pub fn is_closed(&self) -> (b: bool)
        ensures
            b == (self.state() == SessionView::Closed),
    {
        self.closed
    }

    /// The upload under way, if there is one: bytes received so far and bytes
    /// declared.
    pub fn progress(&self) -> (r: Option<(u64, u64)>)
        ensures
            match self.state() {
                SessionView::Receiving { total, done } => r == Some((done, total)),
                _ => r is None,
            },
    {
        proof {
            use_type_invariant(self);
        }
        match &self.receiving {
            Some(t) => Some((t.bytes_transferred(), t.declared_size())),
            None => None,
        }
    }

    /// How many bytes the next read may ask for, with a buffer of
    /// `buffer_len` bytes: never more than the upload under way still owes.
    pub fn read_limit(&self, buffer_len: usize) -> (n: usize)
        ensures
            n == read_limit_of(self.state(), buffer_len),
    {
        proof {
            use_type_invariant(self);
        }
        if self.closed {
            0
        } else {
            match &self.receiving {
                Some(t) => t.next_len(buffer_len),
                None => buffer_len,
            }
        }
    }

    /// Takes the bytes of one read and says what to do, in order.
    pub fn on_read(&mut self, input: &[u8]) -> (actions: Vec<Action>)
        ensures
            final(self).root() == old(self).root(),
            final(self).state() == react(old(self).root(), old(self).state(), input@).0,
            action_views(actions@) == react(old(self).root(), old(self).state(), input@).1,
    {
        proof {
            use_type_invariant(&*self);
        }
        if self.closed {
            return none();
        }
        let mut receiving: Option<Transfer> = self.receiving;
        if input.len() == 0 {
            let error = match &receiving {
                Some(t) => Some(
                    TransferError::Truncated {
                        expected: t.declared_size(),
                        received: t.bytes_transferred(),
                    },
                ),
                None => None,
            };
            self.receiving = None;
            self.closed = true;
            return one(Action::Close(error));
        }
        let ghost root = self.root@;
        let ghost start = state_of(receiving, false);
        let mut actions: Vec<Action> = none();
        let mut pos: usize = 0;
        assert(input@.skip(0) =~= input@);
        assert(action_views(actions@) + consume(root, start, input@).1 =~= consume(
            root,
            start,
            input@,
        ).1);
        while pos < input.len()
            invariant
                pos <= input@.len(),
                root == self.root@,
                !self.closed,
                receiving is Some ==> receiving->Some_0.transferred() < receiving->Some_0.total(),
                consume(root, start, input@).0 == consume(
                    root,
                    state_of(receiving, false),
                    input@.skip(pos as int),
                ).0,
                consume(root, start, input@).1 == action_views(actions@) + consume(
                    root,
                    state_of(receiving, false),
                    input@.skip(pos as int),
                ).1,
            decreases input@.len() - pos,
        {
            let ghost rest = input@.skip(pos as int);
            let ghost before = actions@;
            let ghost state = state_of(receiving, false);
            match receiving.take() {
                Some(mut transfer) => {
                    let k = transfer.next_len(input.len() - pos);
                    let chunk = copy_range(input, pos, pos + k);
                    assert(chunk@ =~= rest.take(k as int));
                    let moved = transfer.advance(k);
                    assert(moved is Ok);
                    let write = Action::Write(chunk);
                    actions.push(write);
                    assert(rest.skip(k as int) =~= input@.skip(pos + k));
                    if transfer.is_complete() {
                        let ack = Action::Respond(uploaded_bytes());
                        actions.push(ack);
                        receiving = None;
                        proof {
                            let next = consume(root, SessionView::Idle, rest.skip(k as int));
                            assert(action_views(actions@) =~= action_views(before) + seq![
                                write@,
                                ack@,
                            ]);
                            assert(consume(root, state, rest).1 == seq![write@, ack@] + next.1);
                            assert(action_views(before) + (seq![write@, ack@] + next.1)
                                =~= action_views(actions@) + next.1);
                        }
                    } else {
                        receiving = Some(transfer);
                        proof {
                            assert(pos + k == input@.len());
                            assert(action_views(actions@) =~= action_views(before) + seq![write@]);
                            assert(rest.skip(k as int).len() == 0);
                            assert(action_views(actions@) + Seq::<ActionView>::empty()
                                =~= action_views(actions@));
                        }
                    }
                    pos = pos + k;
                },
                None => {
                    let remaining = slice_subrange(input, pos, input.len());
                    assert(remaining@ =~= rest);
                    let cut = split_line(remaining);
                    let line = slice_subrange(remaining, 0, cut.0);
                    assert(line@ =~= first_line(rest));
                    let step = dispatch_line(self.root.as_slice(), line);
                    receiving = step.0;
                    let mut more = step.1;
                    let ghost added = more@;
                    actions.append(&mut more);
                    proof {
                        let first = dispatch(root, first_line(rest));
                        let next = consume(root, first.0, after_first_line(rest));
                        assert(action_views(actions@) =~= action_views(before) + action_views(
                            added,
                        ));
                        assert(rest.skip(cut.1 as int) =~= input@.skip(pos + cut.1));
                        assert(consume(root, state, rest).1 == first.1 + next.1);
                        assert(action_views(before) + (first.1 + next.1) =~= action_views(
                            actions@,
                        ) + next.1);
                        lemma_line_len_bounds(rest);
                    }
                    pos = pos + cut.1;
                },
            }
        }
        assert(input@.skip(pos as int).len() == 0);
        assert(action_views(actions@) + Seq::<ActionView>::empty() =~= action_views(actions@));
        self.receiving = receiving;
        actions
    }
}

} // verus!

//! What holds across the two sides of the protocol: what one side writes, the
//! other reads back.

use vstd::prelude::*;
use crate::client::{download_of, file_name_of, upload_wire, DownloadError};
use crate::decimal::decimal_digits;
use crate::header::{
    header_fields, header_line, header_of_tokens, lemma_header_roundtrip, put_word, send_word,
    ProtocolError,
};
use crate::request::{
    command_of, parse_line, recognize, request_of, AllowedRequest, CommandView,
    ParsedView, RequestView,
};
use crate::server::{download_wire, put_of, put_target, write_chunks, PutDone};
use crate::session::{
    consume, dispatch, invalid_response, react, uploaded_response, ActionView, PathView,
    SessionView,
};
use crate::storage::{
    dotdot, drop_dots, has_nul, has_parent, is_normal, join_segments, lemma_traversal_rejected,
    relative_segments, traversal_sample, ResolveError,
};
use crate::text::{
    is_padding, is_space, is_word, lemma_first_line_of_joined, lemma_pieces_all_cuts,
    lemma_pieces_first, segments, tokens, trim, Separator, NEWLINE,
};
use crate::transfer::{chunk_count, chunk_len, TransferError};

verus! {

/// A name that can travel in a header line and be stored: one segment that
/// names an entry, free of whitespace and of NUL bytes.
pub open spec fn is_plain_name(name: Seq<u8>) -> bool {
    is_word(name) && is_normal(name) && !has_nul(name)
}

/// What a run of reads leads to, one read after the other.
pub open spec fn feed(root: Seq<u8>, state: SessionView, reads: Seq<Seq<u8>>) -> (
    SessionView,
    Seq<ActionView>,
)
    decreases reads.len(),
{
    if reads.len() == 0 {
        (state, Seq::empty())
    } else {
        let first = react(root, state, reads[0]);
        let rest = feed(root, first.0, reads.skip(1));
        (rest.0, first.1 + rest.1)
    }
}

proof fn lemma_verbs_are_words()
    ensures
        is_word(put_word()),
        !is_padding(put_word()[0]),
        is_word(send_word()),
        !is_padding(send_word()[0]),
{
    assert forall|i: int| 0 <= i < put_word().len() implies !is_space(#[trigger] put_word()[i]) by {
        if i == 0 {
        } else if i == 1 {
        } else {
        }
    }
    assert forall|i: int| 0 <= i < send_word().len() implies !is_space(
        #[trigger] send_word()[i],
    ) by {
        if i == 0 {
        } else if i == 1 {
        } else if i == 2 {
        } else {
        }
    }
}

/// A plain name is resolved to itself, as the one segment below the root.
pub proof fn lemma_plain_name_resolves(name: Seq<u8>)
    requires
        is_plain_name(name),
    ensures
        relative_segments(name) == Ok::<Seq<Seq<u8>>, ResolveError>(seq![name]),
        join_segments(seq![name]) == name,
        segments(name) == seq![name],
{
    let sl = Separator::Slash;
    lemma_pieces_first(sl, name, Seq::<u8>::empty());
    lemma_pieces_all_cuts(sl, Seq::<u8>::empty());
    assert(name + Seq::<u8>::empty() =~= name);
    assert(segments(name) =~= seq![name]);
    let segs = seq![name];
    assert(!has_parent(segs)) by {
        if has_parent(segs) {
            let i = choose|i: int| 0 <= i < segs.len() && #[trigger] segs[i] == dotdot();
            assert(segs[i] == name);
        }
    }
    assert(segs.drop_last() =~= Seq::<Seq<u8>>::empty());
    assert(drop_dots(segs.drop_last()) =~= Seq::<Seq<u8>>::empty());
    assert(drop_dots(segs) =~= segs);
    assert(!sl.cuts(name[0]));
}

/// The header line of an upload is read by the server as the command to
/// store that many bytes under that name.
pub proof fn lemma_put_line_parses(name: Seq<u8>, size: u64)
    requires
        is_word(name),
    ensures
        parse_line(header_fields(put_word(), name, size)) == ParsedView::Command(
            CommandView::Put { name, size },
        ),
{
    lemma_verbs_are_words();
    lemma_header_roundtrip(put_word(), name, size);
    let fields = header_fields(put_word(), name, size);
    assert(tokens(trim(fields))[0] == put_word());
    assert(recognize(fields) == Some(AllowedRequest::Put));
    let req = RequestView {
        verb: AllowedRequest::Put,
        tokens: seq![put_word(), name, decimal_digits(size as nat)],
    };
    assert(request_of(fields) == Some(req));
    assert(command_of(req) == Ok::<CommandView, ProtocolError>(CommandView::Put { name, size }));
}

/// An upload arrives whole. What the client writes for a file of one byte or
/// more under a plain name makes the server create the file of that name
/// below its root, write exactly the file's bytes to it and acknowledge; and
/// what the server writes when that file is asked for is received by the
/// client as the same name and the same bytes.
pub proof fn lemma_upload_then_download(root: Seq<u8>, path: Seq<u8>, content: Seq<u8>)
    requires
        0 < content.len() <= u64::MAX,
        is_plain_name(file_name_of(path)),
    ensures
        ({
            let name = file_name_of(path);
            let stored = PathView { root, relative: seq![name] };
            let served = react(root, SessionView::Idle, upload_wire(path, content));
            &&& served.0 == SessionView::Idle
            &&& served.1 == seq![
                ActionView::CreateFile(stored),
                ActionView::Write(content),
                ActionView::Respond(uploaded_response()),
            ]
            &&& download_of(download_wire(join_segments(stored.relative), content)) == Ok::<
                (Seq<u8>, Seq<u8>),
                DownloadError,
            >((name, content))
        }),
{
    let name = file_name_of(path);
    let size = content.len() as u64;
    let stored = PathView { root, relative: seq![name] };
    lemma_verbs_are_words();
    lemma_plain_name_resolves(name);

    // the server's side
    let fields = header_fields(put_word(), name, size);
    let wire = upload_wire(path, content);
    lemma_header_roundtrip(put_word(), name, size);
    lemma_first_line_of_joined(fields, content);
    assert(wire =~= fields + seq![NEWLINE] + content);
    lemma_put_line_parses(name, size);
    let first = dispatch(root, fields);
    assert(first.0 == SessionView::Receiving { total: size, done: 0 });
    assert(first.1 == seq![ActionView::CreateFile(stored)]);
    let next = consume(root, first.0, content);
    let k = content.len() as int;
    assert(content.take(k) =~= content);
    assert(content.skip(k).len() == 0);
    let tail = consume(root, SessionView::Idle, content.skip(k));
    assert(tail.1 =~= Seq::<ActionView>::empty());
    assert(next.0 == SessionView::Idle);
    assert(next.1 =~= seq![
        ActionView::Write(content),
        ActionView::Respond(uploaded_response()),
    ]);
    let served = consume(root, SessionView::Idle, wire);
    assert(served.1 == first.1 + next.1);
    assert(served.1 =~= seq![
        ActionView::CreateFile(stored),
        ActionView::Write(content),
        ActionView::Respond(uploaded_response()),
    ]);

    // the client's side
    let back = header_fields(send_word(), name, size);
    let answer = download_wire(name, content);
    lemma_header_roundtrip(send_word(), name, size);
    lemma_first_line_of_joined(back, content);
    assert(answer =~= back + seq![NEWLINE] + content);
}

/// The bytes that one action writes to the file of an upload.
pub open spec fn payload_of(action: ActionView) -> Seq<u8> {
    match action {
        ActionView::Write(bytes) => bytes,
        _ => Seq::empty(),
    }
}

/// The bytes that a run of actions writes to the file of an upload.
pub open spec fn written(actions: Seq<ActionView>) -> Seq<u8>
    decreases actions.len(),
{
    if actions.len() == 0 {
        Seq::empty()
    } else {
        payload_of(actions[0]) + written(actions.skip(1))
    }
}

/// `reads` are reads that found bytes: none of them is empty.
pub open spec fn all_found_bytes(reads: Seq<Seq<u8>>) -> bool {
    forall|i: int| 0 <= i < reads.len() ==> (#[trigger] reads[i]).len() > 0
}

proof fn lemma_written_concat(a: Seq<ActionView>, b: Seq<ActionView>)
    ensures
        written(a + b) == written(a) + written(b),
    decreases a.len(),
{
    if a.len() == 0 {
        assert(a + b =~= b);
        assert(written(a) + written(b) =~= written(b));
    } else {
        assert((a + b)[0] == a[0]);
        assert((a + b).skip(1) =~= a.skip(1) + b);
        lemma_written_concat(a.skip(1), b);
        let head = payload_of(a[0]);
        assert(head + (written(a.skip(1)) + written(b)) =~= (head + written(a.skip(1))) + written(
            b,
        ));
    }
}

proof fn lemma_written_one(action: ActionView)
    ensures
        written(seq![action]) == payload_of(action),
{
    let one = seq![action];
    assert(one.skip(1) =~= Seq::<ActionView>::empty());
    assert(written(one.skip(1)) =~= Seq::<u8>::empty());
    assert(payload_of(action) + Seq::<u8>::empty() =~= payload_of(action));
}

/// The writes of a payload carry the payload: whatever the capacity of the
/// buffer, the chunks that are written, taken together and in order, are the
/// bytes of the payload, and nothing but writes is among them.
pub proof fn lemma_written_chunks(data: Seq<u8>, buffer_len: nat)
    requires
        buffer_len > 0,
    ensures
        written(write_chunks(data, buffer_len)) == data,
        forall|i: int|
            0 <= i < write_chunks(data, buffer_len).len() ==> (#[trigger] write_chunks(
                data,
                buffer_len,
            )[i]) is Write,
    decreases data.len(),
{
    let all = write_chunks(data, buffer_len);
    if data.len() == 0 {
        assert(written(all) =~= data);
    } else {
        let k = chunk_len(data.len(), buffer_len) as int;
        let first = ActionView::Write(data.take(k));
        let later = write_chunks(data.skip(k), buffer_len);
        lemma_written_chunks(data.skip(k), buffer_len);
        lemma_written_concat(seq![first], later);
        lemma_written_one(first);
        assert(data.take(k) + data.skip(k) =~= data);
        assert forall|i: int| 0 <= i < all.len() implies (#[trigger] all[i]) is Write by {
            if i > 0 {
                assert(all[i] == later[i - 1]);
            }
        }
    }
}

/// An upload whose line and name are in order stores exactly what was
/// declared: the file is created first, the bytes that are written to it are
/// the first bytes of the payload, as many as the line declares, and the
/// acknowledgment is the last thing that happens. What follows the payload is
/// not taken.
pub proof fn lemma_put_stores_payload(
    root: Seq<u8>,
    line: Seq<u8>,
    payload: Seq<u8>,
    buffer_len: nat,
)
    requires
        buffer_len > 0,
        put_target(line) is Some,
        put_target(line)->Some_0.1 <= payload.len(),
        payload.len() <= usize::MAX,
    ensures
        ({
            let relative = put_target(line)->Some_0.0;
            let size = put_target(line)->Some_0.1;
            let done = put_of(root, line, payload, buffer_len);
            &&& done.0[0] == ActionView::CreateFile(PathView { root, relative })
            &&& written(done.0) == payload.take(size as int)
            &&& done.0.last() == ActionView::Respond(uploaded_response())
            &&& done.1 is Ok
            &&& done.1->Ok_0.consumed == size
            &&& done.1->Ok_0.reads == chunk_count(size as nat, buffer_len)
            &&& size == 0 ==> done.1->Ok_0.reads == 0 && done.0.len() == 2
        }),
{
    let relative = put_target(line)->Some_0.0;
    let size = put_target(line)->Some_0.1;
    let data = payload.take(size as int);
    let create = ActionView::CreateFile(PathView { root, relative });
    let ack = ActionView::Respond(uploaded_response());
    let writes = write_chunks(data, buffer_len);
    let done = put_of(root, line, payload, buffer_len);
    assert(done.0 == seq![create] + writes + seq![ack]);
    lemma_written_chunks(data, buffer_len);
    lemma_written_concat(seq![create] + writes, seq![ack]);
    lemma_written_concat(seq![create], writes);
    lemma_written_one(create);
    lemma_written_one(ack);
    assert(Seq::<u8>::empty() + data + Seq::<u8>::empty() =~= data);
    lemma_chunk_count_bounded(size as nat, buffer_len);
}

proof fn lemma_chunk_count_bounded(size: nat, buffer_len: nat)
    requires
        buffer_len > 0,
    ensures
        chunk_count(size, buffer_len) <= size,
    decreases size,
{
    if size > 0 {
        lemma_chunk_count_bounded((size - chunk_len(size, buffer_len)) as nat, buffer_len);
    }
}

/// An upload whose payload ends before the declared size is a truncated
/// transfer: the error tells how many bytes were declared and how many
/// arrived, what arrived was written, and nothing is acknowledged.
pub proof fn lemma_put_truncated(root: Seq<u8>, line: Seq<u8>, payload: Seq<u8>, buffer_len: nat)
    requires
        buffer_len > 0,
        put_target(line) is Some,
        put_target(line)->Some_0.1 > payload.len(),
    ensures
        ({
            let size = put_target(line)->Some_0.1;
            let done = put_of(root, line, payload, buffer_len);
            &&& done.1 == Err::<PutDone, TransferError>(
                TransferError::Truncated { expected: size, received: payload.len() as u64 },
            )
            &&& written(done.0) == payload
            &&& forall|i: int| 0 <= i < done.0.len() ==> !((#[trigger] done.0[i]) is Respond)
        }),
{
    let relative = put_target(line)->Some_0.0;
    let create = ActionView::CreateFile(PathView { root, relative });
    let writes = write_chunks(payload, buffer_len);
    let done = put_of(root, line, payload, buffer_len);
    assert(done.0 == seq![create] + writes);
    lemma_written_chunks(payload, buffer_len);
    lemma_written_concat(seq![create], writes);
    lemma_written_one(create);
    assert(Seq::<u8>::empty() + payload =~= payload);
    assert forall|i: int| 0 <= i < done.0.len() implies !((#[trigger] done.0[i]) is Respond) by {
        if i > 0 {
            assert(done.0[i] == writes[i - 1]);
        }
    }
}

/// An upload whose line is not in order, or whose name would leave the
/// storage root, is answered with the error line and nothing else: no file is
/// created, nothing is written, and no byte of the payload is read.
pub proof fn lemma_put_refused(root: Seq<u8>, line: Seq<u8>, payload: Seq<u8>, buffer_len: nat)
    requires
        header_of_tokens(put_word(), tokens(trim(line))) is Err || relative_segments(
            tokens(trim(line))[1],
        ) is Err,
    ensures
        put_of(root, line, payload, buffer_len) == (
            seq![ActionView::Respond(invalid_response())],
            Ok::<PutDone, TransferError>(PutDone { reads: 0, consumed: 0 }),
        ),
{
}

/// An upload under a name that holds `../../etc/passwd` is refused, whatever
/// its size and its payload.
pub proof fn lemma_put_refuses_traversal(
    root: Seq<u8>,
    line: Seq<u8>,
    payload: Seq<u8>,
    buffer_len: nat,
    at: int,
)
    requires
        tokens(trim(line)).len() == 3,
        0 <= at,
        at + traversal_sample().len() <= tokens(trim(line))[1].len(),
        tokens(trim(line))[1].subrange(at, at + traversal_sample().len()) == traversal_sample(),
    ensures
        put_of(root, line, payload, buffer_len).0 == seq![
            ActionView::Respond(invalid_response()),
        ],
        put_of(root, line, payload, buffer_len).1 == Ok::<PutDone, TransferError>(
            PutDone { reads: 0, consumed: 0 },
        ),
{
    lemma_traversal_rejected(tokens(trim(line))[1], at);
}

/// The header line that a client writes for a plain name asks for that name
/// and that size, and the session begins the same upload on it.
pub proof fn lemma_put_line_is_in_order(root: Seq<u8>, name: Seq<u8>, size: u64)
    requires
        is_plain_name(name),
    ensures
        put_target(header_line(put_word(), name, size)) == Some((seq![name], size)),
        put_target(header_fields(put_word(), name, size)) == Some((seq![name], size)),
        dispatch(root, header_fields(put_word(), name, size)).1[0] == ActionView::CreateFile(
            PathView { root, relative: seq![name] },
        ),
{
    lemma_verbs_are_words();
    lemma_plain_name_resolves(name);
    lemma_header_roundtrip(put_word(), name, size);
    lemma_put_line_parses(name, size);
}

/// The handler and the session agree: where an upload under a plain name
/// arrives in one read and its payload passes the buffer in one chunk, the
/// session asks for the actions that the handler asks for.
pub proof fn lemma_put_as_session(root: Seq<u8>, name: Seq<u8>, payload: Seq<u8>, buffer_len: nat)
    requires
        is_plain_name(name),
        0 < payload.len() <= u64::MAX,
        payload.len() <= buffer_len,
    ensures
        react(
            root,
            SessionView::Idle,
            header_line(put_word(), name, payload.len() as u64) + payload,
        ) == (
            SessionView::Idle,
            put_of(
                root,
                header_line(put_word(), name, payload.len() as u64),
                payload,
                buffer_len,
            ).0,
        ),
{
    let size = payload.len() as u64;
    let line = header_line(put_word(), name, size);
    lemma_put_line_is_in_order(root, name, size);
    // the session's side: the name is the file name of itself
    lemma_plain_name_resolves(name);
    assert(segments(name) =~= seq![name]);
    assert(file_name_of(name) == name);
    lemma_upload_then_download(root, name, payload);
    assert(upload_wire(name, payload) == line + payload);
    // the handler's side
    let k = chunk_len(payload.len(), buffer_len) as int;
    assert(k == payload.len());
    assert(payload.take(size as int) =~= payload);
    assert(payload.take(k) =~= payload);
    assert(payload.skip(k).len() == 0);
    let tail = write_chunks(payload.skip(k), buffer_len);
    assert(tail =~= Seq::<ActionView>::empty());
    assert(write_chunks(payload, buffer_len) =~= seq![ActionView::Write(payload)]);
    let stored = PathView { root, relative: seq![name] };
    assert(put_of(root, line, payload, buffer_len).0 =~= seq![
        ActionView::CreateFile(stored),
        ActionView::Write(payload),
        ActionView::Respond(uploaded_response()),
    ]);
}

/// A payload arrives in pieces. However the reads cut what is still owed of
/// an upload, the bytes are written to the file in the order in which they
/// came, nothing else is written, and the upload is acknowledged when the
/// declared size is reached, not before.
pub proof fn lemma_payload_in_pieces(root: Seq<u8>, total: u64, done: u64, reads: Seq<Seq<u8>>)
    requires
        reads.len() > 0,
        all_found_bytes(reads),
        done + reads.flatten().len() == total,
    ensures
        feed(root, SessionView::Receiving { total, done }, reads).0 == SessionView::Idle,
        written(feed(root, SessionView::Receiving { total, done }, reads).1) == reads.flatten(),
        feed(root, SessionView::Receiving { total, done }, reads).1.len() > 0,
        feed(root, SessionView::Receiving { total, done }, reads).1.last() == ActionView::Respond(
            uploaded_response(),
        ),
    decreases reads.len(),
{
    let state = SessionView::Receiving { total, done };
    let ack = ActionView::Respond(uploaded_response());
    let first = reads[0];
    let rest = reads.skip(1);
    assert(rest =~= reads.drop_first());
    assert(reads.flatten() == first + rest.flatten());
    assert(first.len() > 0);
    assert(first.take(first.len() as int) =~= first);
    let one = react(root, state, first);
    if rest.len() == 0 {
        assert(rest.flatten() =~= Seq::<u8>::empty());
        assert(first + rest.flatten() =~= first);
        assert(first.skip(first.len() as int).len() == 0);
        let tail = consume(root, SessionView::Idle, first.skip(first.len() as int));
        assert(tail.1 =~= Seq::<ActionView>::empty());
        assert(one.0 == SessionView::Idle);
        assert(one.1 =~= seq![ActionView::Write(first), ack]);
        let end = feed(root, one.0, rest);
        assert(end.1 =~= Seq::<ActionView>::empty());
        let all = feed(root, state, reads);
        assert(all.1 =~= seq![ActionView::Write(first), ack]);
        lemma_written_concat(seq![ActionView::Write(first)], seq![ack]);
        assert(seq![ActionView::Write(first)] + seq![ack] =~= all.1);
        lemma_written_one(ActionView::Write(first));
        lemma_written_one(ack);
        assert(first + Seq::<u8>::empty() =~= first);
    } else {
        assert(rest[0].len() > 0);
        rest.lemma_flatten_length_ge_single_element_length(0);
        let mid = SessionView::Receiving { total, done: (done + first.len()) as u64 };
        assert(one == (mid, seq![ActionView::Write(first)]));
        assert forall|i: int| 0 <= i < rest.len() implies (#[trigger] rest[i]).len() > 0 by {
            assert(rest[i] == reads[i + 1]);
        }
        lemma_payload_in_pieces(root, total, (done + first.len()) as u64, rest);
        let later = feed(root, mid, rest);
        let all = feed(root, state, reads);
        assert(all.1 == one.1 + later.1);
        lemma_written_concat(one.1, later.1);
        lemma_written_one(ActionView::Write(first));
        assert((one.1 + later.1).last() == later.1.last());
    }
}

/// An upload arrives in pieces. Whatever part of the file's bytes comes with
/// the header line in the first read, and however the reads that follow cut
/// the rest, the server creates the file of that name below its root, writes
/// exactly the file's bytes to it, in order, and then acknowledges.
pub proof fn lemma_upload_in_pieces(
    root: Seq<u8>,
    path: Seq<u8>,
    content: Seq<u8>,
    with_header: Seq<u8>,
    later: Seq<Seq<u8>>,
)
    requires
        0 < content.len() <= u64::MAX,
        is_plain_name(file_name_of(path)),
        all_found_bytes(later),
        with_header + later.flatten() == content,
    ensures
        ({
            let name = file_name_of(path);
            let header = header_line(put_word(), name, content.len() as u64);
            let served = feed(root, SessionView::Idle, seq![header + with_header] + later);
            &&& served.0 == SessionView::Idle
            &&& served.1.len() >= 2
            &&& served.1[0] == ActionView::CreateFile(PathView { root, relative: seq![name] })
            &&& written(served.1) == content
            &&& served.1.last() == ActionView::Respond(uploaded_response())
        }),
{
    let name = file_name_of(path);
    let size = content.len() as u64;
    let stored = PathView { root, relative: seq![name] };
    let fields = header_fields(put_word(), name, size);
    let header = header_line(put_word(), name, size);
    let first_read = header + with_header;
    let reads = seq![first_read] + later;
    let create = ActionView::CreateFile(stored);
    let ack = ActionView::Respond(uploaded_response());
    assert(reads[0] == first_read);
    assert(reads.skip(1) =~= later);
    let served = feed(root, SessionView::Idle, reads);
    let one = react(root, SessionView::Idle, first_read);
    let rest = feed(root, one.0, later);
    assert(served.1 == one.1 + rest.1);
    lemma_written_one(create);
    if later.len() == 0 {
        assert(later.flatten() =~= Seq::<u8>::empty());
        assert(with_header =~= content);
        lemma_upload_then_download(root, path, content);
        assert(first_read == upload_wire(path, content));
        assert(rest.1 =~= Seq::<ActionView>::empty());
        assert(served.1 =~= one.1);
        let tail = seq![ActionView::Write(content), ack];
        assert(one.1 =~= seq![create] + tail);
        lemma_written_concat(seq![create], tail);
        lemma_written_concat(seq![ActionView::Write(content)], seq![ack]);
        assert(tail =~= seq![ActionView::Write(content)] + seq![ack]);
        lemma_written_one(ActionView::Write(content));
        lemma_written_one(ack);
        assert(Seq::<u8>::empty() + (content + Seq::<u8>::empty()) =~= content);
    } else {
        assert(later[0].len() > 0);
        later.lemma_flatten_length_ge_single_element_length(0);
        let part = with_header;
        assert(part.len() < content.len());
        lemma_verbs_are_words();
        lemma_plain_name_resolves(name);
        lemma_header_roundtrip(put_word(), name, size);
        lemma_first_line_of_joined(fields, part);
        assert(first_read =~= fields + seq![NEWLINE] + part);
        lemma_put_line_parses(name, size);
        let begun = dispatch(root, fields);
        assert(begun.0 == SessionView::Receiving { total: size, done: 0 });
        assert(begun.1 == seq![create]);
        let next = consume(root, begun.0, part);
        let mid = SessionView::Receiving { total: size, done: part.len() as u64 };
        if part.len() == 0 {
            assert(next == (mid, Seq::<ActionView>::empty()));
            assert(written(next.1) =~= part);
        } else {
            assert(part.take(part.len() as int) =~= part);
            assert(next == (mid, seq![ActionView::Write(part)]));
            lemma_written_one(ActionView::Write(part));
        }
        assert(one.0 == mid);
        assert(one.1 == begun.1 + next.1);
        lemma_payload_in_pieces(root, size, part.len() as u64, later);
        lemma_written_concat(begun.1, next.1);
        lemma_written_concat(one.1, rest.1);
        assert(Seq::<u8>::empty() + part =~= part);
        assert((one.1 + rest.1).last() == rest.1.last());
        assert((one.1 + rest.1)[0] == create);
    }
}

/// An upload of no bytes owes no read: behind its header line the file is
/// created and acknowledged at once, nothing is written to it, and the next
/// bytes are a command line again.
pub proof fn lemma_empty_upload(root: Seq<u8>, name: Seq<u8>)
    requires
        is_plain_name(name),
    ensures
        react(root, SessionView::Idle, header_line(put_word(), name, 0)) == (
            SessionView::Idle,
            seq![
                ActionView::CreateFile(PathView { root, relative: seq![name] }),
                ActionView::Respond(uploaded_response()),
            ],
        ),
{
    let fields = header_fields(put_word(), name, 0);
    let wire = header_line(put_word(), name, 0);
    lemma_verbs_are_words();
    lemma_plain_name_resolves(name);
    lemma_header_roundtrip(put_word(), name, 0);
    lemma_first_line_of_joined(fields, Seq::<u8>::empty());
    assert(wire =~= fields + seq![NEWLINE] + Seq::<u8>::empty());
    lemma_put_line_parses(name, 0);
    let first = dispatch(root, fields);
    let next = consume(root, first.0, Seq::<u8>::empty());
    assert(first.1 + next.1 =~= first.1);
}

/// A peer that closes before the declared size is reached leaves a truncated
/// transfer, not a short file taken for a whole one: the close is answered
/// with the truncation error, which tells how many bytes were declared and how
/// many arrived.
pub proof fn lemma_truncated_upload(root: Seq<u8>, name: Seq<u8>, size: u64, part: Seq<u8>)
    requires
        is_plain_name(name),
        part.len() < size,
    ensures
        feed(
            root,
            SessionView::Idle,
            seq![header_line(put_word(), name, size) + part, Seq::<u8>::empty()],
        ).0 == SessionView::Closed,
        feed(
            root,
            SessionView::Idle,
            seq![header_line(put_word(), name, size) + part, Seq::<u8>::empty()],
        ).1.last() == ActionView::Close(
            Some(TransferError::Truncated { expected: size, received: part.len() as u64 }),
        ),
{
    let fields = header_fields(put_word(), name, size);
    let wire = header_line(put_word(), name, size) + part;
    let reads = seq![wire, Seq::<u8>::empty()];
    lemma_verbs_are_words();
    lemma_plain_name_resolves(name);
    lemma_header_roundtrip(put_word(), name, size);
    lemma_first_line_of_joined(fields, part);
    assert(wire =~= fields + seq![NEWLINE] + part);
    lemma_put_line_parses(name, size);
    let first = dispatch(root, fields);
    assert(first.0 == SessionView::Receiving { total: size, done: 0 });
    let next = consume(root, first.0, part);
    let mid = SessionView::Receiving { total: size, done: part.len() as u64 };
    if part.len() == 0 {
        assert(next.0 == mid);
    } else {
        assert(part.take(part.len() as int) =~= part);
        assert(next.0 == mid);
    }
    let one = react(root, SessionView::Idle, wire);
    assert(one.0 == mid);
    assert(reads.skip(1) =~= seq![Seq::<u8>::empty()]);
    let two = react(root, mid, Seq::<u8>::empty());
    let close = ActionView::Close(
        Some(TransferError::Truncated { expected: size, received: part.len() as u64 }),
    );
    assert(two.1 =~= seq![close]);
    assert(seq![Seq::<u8>::empty()].skip(1) =~= Seq::<Seq<u8>>::empty());
    let rest = feed(root, mid, seq![Seq::<u8>::empty()]);
    assert(feed(root, two.0, seq![Seq::<u8>::empty()].skip(1)).1 =~= Seq::<ActionView>::empty());
    assert(rest.1 =~= seq![close]);
    assert(rest.0 == SessionView::Closed);
    let all = feed(root, SessionView::Idle, reads);
    assert(all.1 == one.1 + rest.1);
    assert((one.1 + rest.1).last() == close);
}

} // verus!

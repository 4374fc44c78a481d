//! The header line that announces a transfer: a verb, a file name and the
//! number of payload bytes that follow, separated by single spaces and ended
//! by a line feed.
//!
//! This is the only framing. Peers that prefix a block with its length and
//! split its fields at NUL bytes speak a legacy variant that is not
//! supported: their first line is no header, and is refused as one.

use vstd::prelude::*;
use vstd::slice::slice_to_vec;
use crate::decimal::{decimal_digits, lemma_decimal_digits, parse_decimal, parse_u64, push_decimal};
use crate::text::{
    is_padding, is_space, is_word, lemma_pieces_all_cuts, lemma_pieces_first,
    lemma_pieces_skip_cuts, split_tokens, tokens, trim, trim_bytes, trim_end, trim_start,
    views, bytes_eq, Separator, NEWLINE, SPACE,
};

verus! {

/// Why a command or header line was refused.
#[derive(Clone, Copy, Debug, PartialEq, Eq, Structural)]
pub enum ProtocolError {
    /// The line has another number of tokens than its verb takes.
    TokenCount,
    /// The first token is not the verb that was expected.
    Verb,
    /// The size is not an unsigned decimal number of 64 bits.
    Size,
}

/// A file name and the number of payload bytes declared for it.
#[derive(Debug, PartialEq, Eq)]
pub struct TransferHeader {
    pub filename: Vec<u8>,
    pub size: u64,
}

pub struct TransferHeaderView {
    pub filename: Seq<u8>,
    pub size: u64,
}

impl View for TransferHeader {
    type V = TransferHeaderView;

    open spec fn view(&self) -> TransferHeaderView {
        TransferHeaderView { filename: self.filename@, size: self.size }
    }
}

/// The verb that opens the header of an upload.
pub open spec fn put_word() -> Seq<u8> {
    seq!['P' as u8, 'U' as u8, 'T' as u8]
}

/// The verb that opens the header of a download.
pub open spec fn send_word() -> Seq<u8> {
    seq!['S' as u8, 'E' as u8, 'N' as u8, 'D' as u8]
}

/// The fields of a header line, separated by single spaces.
pub open spec fn header_fields(verb: Seq<u8>, filename: Seq<u8>, size: u64) -> Seq<u8> {
    verb + seq![SPACE] + filename + seq![SPACE] + decimal_digits(size as nat)
}

/// The header line on the wire: its fields and a line feed.
pub open spec fn header_line(verb: Seq<u8>, filename: Seq<u8>, size: u64) -> Seq<u8> {
    header_fields(verb, filename, size) + seq![NEWLINE]
}

/// What three tokens say as a header: the verb that was expected, a name, a size.
pub open spec fn header_of_tokens(verb: Seq<u8>, toks: Seq<Seq<u8>>) -> Result<
    TransferHeaderView,
    ProtocolError,
> {
    if toks.len() != 3 {
        Err(ProtocolError::TokenCount)
    } else if toks[0] != verb {
        Err(ProtocolError::Verb)
    } else {
        match parse_decimal(toks[2]) {
            Some(size) => Ok(TransferHeaderView { filename: toks[1], size }),
            None => Err(ProtocolError::Size),
        }
    }
}

/// What a line says as a header. Padding around the line is ignored.
pub open spec fn parse_header(verb: Seq<u8>, line: Seq<u8>) -> Result<
    TransferHeaderView,
    ProtocolError,
> {
    header_of_tokens(verb, tokens(trim(line)))
}

/// Whether an outcome of decoding is the one that the line calls for.
pub open spec fn decoded_as(
    r: Result<TransferHeader, ProtocolError>,
    expected: Result<TransferHeaderView, ProtocolError>,
) -> bool {
    match r {
        Ok(h) => expected == Ok::<TransferHeaderView, ProtocolError>(h@),
        Err(e) => expected == Err::<TransferHeaderView, ProtocolError>(e),
    }
}

proof fn lemma_trim_keeps_tight(s: Seq<u8>)
    requires
        s.len() > 0,
        !is_padding(s[0]),
        !is_padding(s.last()),
    ensures
        trim(s) == s,
{
}

proof fn lemma_trim_drops_newline(s: Seq<u8>)
    requires
        s.len() > 0,
        !is_padding(s[0]),
        !is_padding(s.last()),
    ensures
        trim(s + seq![NEWLINE]) == s,
{
    let t = s + seq![NEWLINE];
    assert(t[0] == s[0]);
    assert(trim_start(t) == t);
    assert(t.last() == NEWLINE);
    assert(t.drop_last() =~= s);
    assert(trim_end(t) == trim_end(s));
}

/// The tokens of a verb, a name and a size joined by single spaces.
pub proof fn lemma_tokens_of_fields(verb: Seq<u8>, filename: Seq<u8>, digits: Seq<u8>)
    requires
        is_word(verb),
        is_word(filename),
        is_word(digits),
    ensures
        tokens(verb + seq![SPACE] + filename + seq![SPACE] + digits) == seq![
            verb,
            filename,
            digits,
        ],
{
    let ws = Separator::Whitespace;
    let sp = seq![SPACE];
    let r3 = sp + digits;
    let r2 = filename + r3;
    let r1 = sp + r2;
    let s = verb + r1;
    assert(s =~= verb + seq![SPACE] + filename + seq![SPACE] + digits);
    assert(is_space(SPACE));
    lemma_pieces_first(ws, verb, r1);
    lemma_pieces_skip_cuts(ws, r1, 1);
    assert(r1.skip(1) =~= r2);
    lemma_pieces_first(ws, filename, r3);
    lemma_pieces_skip_cuts(ws, r3, 1);
    assert(r3.skip(1) =~= digits);
    lemma_pieces_first(ws, digits, Seq::<u8>::empty());
    assert(digits + Seq::<u8>::empty() =~= digits);
    lemma_pieces_all_cuts(ws, Seq::<u8>::empty());
    assert(tokens(s) =~= seq![verb, filename, digits]);
}

/// The digits of a number form one token.
pub proof fn lemma_digits_are_word(n: nat)
    ensures
        is_word(decimal_digits(n)),
        !is_padding(decimal_digits(n).last()),
{
    lemma_decimal_digits(n);
    let d = decimal_digits(n);
    assert forall|i: int| 0 <= i < d.len() implies !is_space(#[trigger] d[i]) by {
        assert(crate::decimal::is_digit(d[i]));
    }
    assert(crate::decimal::is_digit(d[d.len() - 1]));
}

/// A header line that was written for a name without whitespace is read back
/// as that name and that size.
pub proof fn lemma_header_roundtrip(verb: Seq<u8>, filename: Seq<u8>, size: u64)
    requires
        is_word(verb),
        !is_padding(verb[0]),
        is_word(filename),
    ensures
        parse_header(verb, header_line(verb, filename, size)) == Ok::<
            TransferHeaderView,
            ProtocolError,
        >(TransferHeaderView { filename, size }),
        trim(header_line(verb, filename, size)) == header_fields(verb, filename, size),
        trim(header_fields(verb, filename, size)) == header_fields(verb, filename, size),
        tokens(header_fields(verb, filename, size)) == seq![
            verb,
            filename,
            decimal_digits(size as nat),
        ],
        parse_decimal(decimal_digits(size as nat)) == Some(size),
        forall|i: int|
            0 <= i < header_fields(verb, filename, size).len() ==> #[trigger] header_fields(
                verb,
                filename,
                size,
            )[i] != NEWLINE,
{
    let digits = decimal_digits(size as nat);
    lemma_digits_are_word(size as nat);
    let body = verb + seq![SPACE] + filename + seq![SPACE] + digits;
    assert(body[0] == verb[0]);
    assert(body.last() == digits.last());
    lemma_trim_drops_newline(body);
    lemma_trim_keeps_tight(body);
    lemma_tokens_of_fields(verb, filename, digits);
    crate::decimal::lemma_parse_decimal_digits(size);
    assert forall|i: int| 0 <= i < body.len() implies #[trigger] body[i] != NEWLINE by {
        let a = verb.len() as int;
        let b = a + 1 + filename.len();
        if i < a {
            assert(body[i] == verb[i]);
        } else if i == a {
        } else if i < b {
            assert(body[i] == filename[i - a - 1]);
        } else if i == b {
        } else {
            assert(body[i] == digits[i - b - 1]);
        }
    }
}

/// The verb of an upload header, as bytes.
pub fn put_bytes() -> (r: Vec<u8>)
    ensures
        r@ == put_word(),
{
    let mut v: Vec<u8> = Vec::new();
    v.push('P' as u8);
    v.push('U' as u8);
    v.push('T' as u8);
    assert(v@ =~= put_word());
    v
}

/// The verb of a download header, as bytes.
pub fn send_bytes() -> (r: Vec<u8>)
    ensures
        r@ == send_word(),
{
    let mut v: Vec<u8> = Vec::new();
    v.push('S' as u8);
    v.push('E' as u8);
    v.push('N' as u8);
    v.push('D' as u8);
    assert(v@ =~= send_word());
    v
}

/// Reads three tokens as a header that opens with `verb`.
pub fn header_from_tokens(verb: &[u8], toks: &Vec<Vec<u8>>) -> (r: Result<
    TransferHeader,
    ProtocolError,
>)
    ensures
        decoded_as(r, header_of_tokens(verb@, views(toks@))),
{
    if toks.len() != 3 {
        return Err(ProtocolError::TokenCount);
    }
    assert(views(toks@)[0] == toks@[0]@);
    assert(views(toks@)[1] == toks@[1]@);
    assert(views(toks@)[2] == toks@[2]@);
    if !bytes_eq(toks[0].as_slice(), verb) {
        return Err(ProtocolError::Verb);
    }
    match parse_u64(toks[2].as_slice()) {
        Some(size) => Ok(TransferHeader { filename: slice_to_vec(toks[1].as_slice()), size }),
        None => Err(ProtocolError::Size),
    }
}

impl TransferHeader {
    /// Writes the header line that opens with `verb`.
    pub fn encode(&self, verb: &[u8]) -> (r: Vec<u8>)
        ensures
            r@ == header_line(verb@, self.filename@, self.size),
    {
        let mut out: Vec<u8> = Vec::new();
        out.extend_from_slice(verb);
        out.push(SPACE);
        out.extend_from_slice(self.filename.as_slice());
        out.push(SPACE);
        push_decimal(self.size, &mut out);
        out.push(NEWLINE);
        assert(out@ =~= header_line(verb@, self.filename@, self.size));
        out
    }

    /// Reads a header line that must open with `verb`. Padding around the
    /// line, its line feed included, is ignored.
    pub fn decode(verb: &[u8], line: &[u8]) -> (r: Result<TransferHeader, ProtocolError>)
        ensures
            decoded_as(r, parse_header(verb@, line@)),
    {
        let trimmed = trim_bytes(line);
        let toks = split_tokens(trimmed.as_slice());
        header_from_tokens(verb, &toks)
    }
}

} // verus!

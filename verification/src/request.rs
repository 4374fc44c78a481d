//! Command lines: the verb that a line opens with, its tokens, and the
//! command that the tokens stand for.
//!
//! A line is routed by its verb, which is its first token. The handler that
//! it is routed to then holds the tokens against what its verb takes: the
//! right number of tokens, and for an upload a size that can be read. A line
//! whose first token is none of the verbs is no request and gets no answer.

use vstd::prelude::*;
use vstd::slice::slice_to_vec;
use vstd::string::StringSliceAdditionalSpecFns;
use vstd::string::StringExecFns;
use crate::header::{header_from_tokens, header_of_tokens, put_word, ProtocolError};
use crate::text::{
    bytes_eq, is_space, is_word, lemma_pieces_all_cuts, lemma_pieces_first, split_tokens, tokens,
    trim, trim_bytes, views, Separator,
};

verus! {

/// The verbs that the server knows.
#[derive(Debug, PartialEq, Eq, Clone, Copy, Structural)]
pub enum AllowedRequest {
    Get,
    Put,
    Delete,
    List,
}

pub open spec fn get_word() -> Seq<u8> {
    seq!['G' as u8, 'E' as u8, 'T' as u8]
}

pub open spec fn list_word() -> Seq<u8> {
    seq!['L' as u8, 'I' as u8, 'S' as u8, 'T' as u8]
}

pub open spec fn delete_word() -> Seq<u8> {
    seq!['D' as u8, 'E' as u8, 'L' as u8, 'E' as u8, 'T' as u8, 'E' as u8]
}

/// The verb that a token is, where it is one of the four words.
pub open spec fn verb_of(token: Seq<u8>) -> Option<AllowedRequest> {
    if token == put_word() {
        Some(AllowedRequest::Put)
    } else if token == list_word() {
        Some(AllowedRequest::List)
    } else if token == delete_word() {
        Some(AllowedRequest::Delete)
    } else if token == get_word() {
        Some(AllowedRequest::Get)
    } else {
        None
    }
}

/// The verb of a line: the first token of the trimmed line, where that token
/// is one of the four words. A line without a token has no verb, and neither
/// has a line whose first token only begins with one of the words.
pub open spec fn recognize(line: Seq<u8>) -> Option<AllowedRequest> {
    let toks = tokens(trim(line));
    if toks.len() == 0 {
        None
    } else {
        verb_of(toks[0])
    }
}

/// The verb of a line is its first token: where a line has a verb, the first
/// token of the trimmed line is that verb's word, letter for letter.
pub proof fn lemma_verb_is_first_token(line: Seq<u8>)
    ensures
        match recognize(line) {
            Some(verb) => tokens(trim(line)).len() > 0 && tokens(trim(line))[0] == verb.word(),
            None => tokens(trim(line)).len() == 0 || verb_of(tokens(trim(line))[0]) is None,
        },
{
}

/// A line that is one word is recognized as that word is: a word that only
/// begins with a verb, or is longer or shorter than the four, is none.
pub proof fn lemma_verb_of_one_word(word: Seq<u8>)
    requires
        is_word(word),
        word[0] != 0,
        word.last() != 0,
    ensures
        recognize(word) == verb_of(word),
        word.len() != 3 && word.len() != 4 && word.len() != 6 ==> recognize(word) is None,
{
    assert(!is_space(word[0]));
    assert(!is_space(word[word.len() - 1]));
    assert(trim(word) == word);
    lemma_pieces_first(Separator::Whitespace, word, Seq::<u8>::empty());
    lemma_pieces_all_cuts(Separator::Whitespace, Seq::<u8>::empty());
    assert(word + Seq::<u8>::empty() =~= word);
    assert(tokens(word)[0] == word);
}

impl AllowedRequest {
    /// The verb as it is written on the wire.
    pub open spec fn word(self) -> Seq<u8> {
        match self {
            AllowedRequest::Get => get_word(),
            AllowedRequest::Put => put_word(),
            AllowedRequest::Delete => delete_word(),
            AllowedRequest::List => list_word(),
        }
    }

    /// The verb as text.
    pub open spec fn name(self) -> Seq<char> {
        match self {
            AllowedRequest::Get => "GET"@,
            AllowedRequest::Put => "PUT"@,
            AllowedRequest::Delete => "DELETE"@,
            AllowedRequest::List => "LIST"@,
        }
    }

    /// Number of tokens of a well-formed line: the verb and its arguments.
    pub open spec fn token_count(self) -> nat {
        match self {
            AllowedRequest::Put => 3,
            AllowedRequest::Get => 2,
            AllowedRequest::Delete => 2,
            AllowedRequest::List => 1,
        }
    }

    /// The verb of `request`: its first token, where that is one of the four
    /// words.
    pub fn from_str_slice(request: &str) -> (r: Option<Self>)
        ensures
            r == recognize(request.spec_bytes()),
    {
        AllowedRequest::from_bytes(request.as_bytes())
    }

    /// The verb of `request`: its first token, where that is one of the four
    /// words.
    pub fn from_bytes(request: &[u8]) -> (r: Option<Self>)
        ensures
            r == recognize(request@),
    {
        let trimmed = trim_bytes(request);
        let toks = split_tokens(trimmed.as_slice());
        if toks.len() == 0 {
            return None;
        }
        assert(views(toks@)[0] == toks@[0]@);
        AllowedRequest::from_token(toks[0].as_slice())
    }

    /// The verb that `token` is, where it is one of the four words.
    pub fn from_token(token: &[u8]) -> (r: Option<Self>)
        ensures
            r == verb_of(token@),
    {
        if bytes_eq(token, AllowedRequest::Put.to_bytes().as_slice()) {
            Some(AllowedRequest::Put)
        } else if bytes_eq(token, AllowedRequest::List.to_bytes().as_slice()) {
            Some(AllowedRequest::List)
        } else if bytes_eq(token, AllowedRequest::Delete.to_bytes().as_slice()) {
            Some(AllowedRequest::Delete)
        } else if bytes_eq(token, AllowedRequest::Get.to_bytes().as_slice()) {
            Some(AllowedRequest::Get)
        } else {
            None
        }
    }

    /// The verb as it is written on the wire.
    pub fn to_bytes(self) -> (r: Vec<u8>)
        ensures
            r@ == self.word(),
    {
        let mut v: Vec<u8> = Vec::new();
        match self {
            AllowedRequest::Get => {
                v.push('G' as u8);
                v.push('E' as u8);
                v.push('T' as u8);
            },
            AllowedRequest::Put => {
                v.push('P' as u8);
                v.push('U' as u8);
                v.push('T' as u8);
            },
            AllowedRequest::Delete => {
                v.push('D' as u8);
                v.push('E' as u8);
                v.push('L' as u8);
                v.push('E' as u8);
                v.push('T' as u8);
                v.push('E' as u8);
            },
            AllowedRequest::List => {
                v.push('L' as u8);
                v.push('I' as u8);
                v.push('S' as u8);
                v.push('T' as u8);
            },
        }
        assert(v@ =~= self.word());
        v
    }

    /// The verb as text, for messages.
    pub fn to_text(self) -> (r: String)
        ensures
            r@ == self.name(),
    {
        match self {
            AllowedRequest::Get => String::from_str("GET"),
            AllowedRequest::Put => String::from_str("PUT"),
            AllowedRequest::Delete => String::from_str("DELETE"),
            AllowedRequest::List => String::from_str("LIST"),
        }
    }

    /// How many tokens a well-formed line of this verb has.
    pub fn tokens_taken(self) -> (n: usize)
        ensures
            n == self.token_count(),
    {
        match self {
            AllowedRequest::Put => 3,
            AllowedRequest::Get => 2,
            AllowedRequest::Delete => 2,
            AllowedRequest::List => 1,
        }
    }
}

/// One request: the verb that the line was routed by and the tokens of the
/// line, the verb token first and the arguments after it.
#[derive(Debug, PartialEq, Eq)]
pub struct Request {
    pub verb: AllowedRequest,
    pub tokens: Vec<Vec<u8>>,
}

pub struct RequestView {
    pub verb: AllowedRequest,
    pub tokens: Seq<Seq<u8>>,
}

impl View for Request {
    type V = RequestView;

    open spec fn view(&self) -> RequestView {
        RequestView { verb: self.verb, tokens: views(self.tokens@) }
    }
}

/// What a request asks for, once its tokens were found in order.
#[derive(Debug, PartialEq, Eq)]
pub enum Command {
    /// Store the `size` bytes that follow under `name`.
    Put { name: Vec<u8>, size: u64 },
    /// Send the file `name`.
    Get { name: Vec<u8> },
    /// List the storage root.
    List,
    /// Accepted; nothing is deleted.
    Delete { name: Vec<u8> },
}

pub enum CommandView {
    Put { name: Seq<u8>, size: u64 },
    Get { name: Seq<u8> },
    List,
    Delete { name: Seq<u8> },
}

impl View for Command {
    type V = CommandView;

    open spec fn view(&self) -> CommandView {
        match self {
            Command::Put { name, size } => CommandView::Put { name: name@, size: *size },
            Command::Get { name } => CommandView::Get { name: name@ },
            Command::List => CommandView::List,
            Command::Delete { name } => CommandView::Delete { name: name@ },
        }
    }
}

/// The request that a line holds: routed by its verb, with the tokens of the
/// trimmed line; a line without a verb holds none.
pub open spec fn request_of(line: Seq<u8>) -> Option<RequestView> {
    match recognize(line) {
        Some(verb) => Some(RequestView { verb, tokens: tokens(trim(line)) }),
        None => None,
    }
}

/// The command that a request stands for, or the protocol error in it.
pub open spec fn command_of(req: RequestView) -> Result<CommandView, ProtocolError> {
    match req.verb {
        AllowedRequest::Put => match header_of_tokens(put_word(), req.tokens) {
            Ok(h) => Ok(CommandView::Put { name: h.filename, size: h.size }),
            Err(e) => Err(e),
        },
        verb => if req.tokens.len() != verb.token_count() {
            Err(ProtocolError::TokenCount)
        } else if req.tokens[0] != verb.word() {
            Err(ProtocolError::Verb)
        } else {
            match verb {
                AllowedRequest::Get => Ok(CommandView::Get { name: req.tokens[1] }),
                AllowedRequest::Delete => Ok(CommandView::Delete { name: req.tokens[1] }),
                _ => Ok(CommandView::List),
            }
        },
    }
}

/// How a line is to be handled.
pub enum ParsedView {
    /// No verb: the line is dropped without a response.
    Unknown,
    /// A verb, but not a well-formed command: the error line is owed.
    Invalid(ProtocolError),
    /// A command to carry out.
    Command(CommandView),
}

pub open spec fn parse_line(line: Seq<u8>) -> ParsedView {
    match request_of(line) {
        None => ParsedView::Unknown,
        Some(req) => match command_of(req) {
            Ok(c) => ParsedView::Command(c),
            Err(e) => ParsedView::Invalid(e),
        },
    }
}

/// How a line is to be handled.
#[derive(Debug, PartialEq, Eq)]
pub enum Parsed {
    /// No verb: the line is dropped without a response.
    Unknown,
    /// A verb, but not a well-formed command: the error line is owed.
    Invalid(ProtocolError),
    /// A command to carry out.
    Command(Command),
}

impl View for Parsed {
    type V = ParsedView;

    open spec fn view(&self) -> ParsedView {
        match self {
            Parsed::Unknown => ParsedView::Unknown,
            Parsed::Invalid(e) => ParsedView::Invalid(*e),
            Parsed::Command(c) => ParsedView::Command(c@),
        }
    }
}

impl Request {
    /// Cuts a line into the tokens of a request. A line whose first token is
    /// none of the verbs is no request.
    pub fn tokenize(line: &[u8]) -> (r: Option<Request>)
        ensures
            match r {
                Some(req) => request_of(line@) == Some(req@),
                None => request_of(line@) is None,
            },
    {
        let trimmed = trim_bytes(line);
        let toks = split_tokens(trimmed.as_slice());
        if toks.len() == 0 {
            return None;
        }
        assert(views(toks@)[0] == toks@[0]@);
        match AllowedRequest::from_token(toks[0].as_slice()) {
            Some(verb) => Some(Request { verb, tokens: toks }),
            None => None,
        }
    }

    /// Holds the tokens against what the verb takes.
    pub fn command(&self) -> (r: Result<Command, ProtocolError>)
        ensures
            match r {
                Ok(c) => command_of(self@) == Ok::<CommandView, ProtocolError>(c@),
                Err(e) => command_of(self@) == Err::<CommandView, ProtocolError>(e),
            },
    {
        let word = self.verb.to_bytes();
        match self.verb {
            AllowedRequest::Put => {
                match header_from_tokens(word.as_slice(), &self.tokens) {
                    Ok(h) => Ok(Command::Put { name: h.filename, size: h.size }),
                    Err(e) => Err(e),
                }
            },
            _ => {
                if self.tokens.len() != self.verb.tokens_taken() {
                    return Err(ProtocolError::TokenCount);
                }
                assert(views(self.tokens@)[0] == self.tokens@[0]@);
                if !bytes_eq(self.tokens[0].as_slice(), word.as_slice()) {
                    return Err(ProtocolError::Verb);
                }
                match self.verb {
                    AllowedRequest::Get => {
                        assert(views(self.tokens@)[1] == self.tokens@[1]@);
                        Ok(Command::Get { name: slice_to_vec(self.tokens[1].as_slice()) })
                    },
                    AllowedRequest::Delete => {
                        assert(views(self.tokens@)[1] == self.tokens@[1]@);
                        Ok(Command::Delete { name: slice_to_vec(self.tokens[1].as_slice()) })
                    },
                    _ => Ok(Command::List),
                }
            },
        }
    }
}

/// Reads one command line.
pub fn parse_request(line: &[u8]) -> (r: Parsed)
    ensures
        r@ == parse_line(line@),
{
    match Request::tokenize(line) {
        None => Parsed::Unknown,
        Some(req) => match req.command() {
            Ok(c) => Parsed::Command(c),
            Err(e) => Parsed::Invalid(e),
        },
    }
}

} // verus!

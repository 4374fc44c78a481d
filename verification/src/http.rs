//! Uploads over HTTP: where the file of a query is stored, and what is
//! answered.
//!
//! The path of a query is a name from the wire like any other: it is resolved
//! below the storage root, and a name that the resolver refuses is refused
//! here.

use vstd::prelude::*;
use vstd::string::StringExecFns;
use vstd::utf8::encode_utf8;
use crate::screens::FileQuery;
use crate::storage::{relative_segments, resolve, ResolveError, StoragePath};
use crate::text::{trim, trim_bytes};

verus! {

/// An answer: the status and the message.
#[derive(Debug, PartialEq, Eq)]
pub struct HttpReply {
    pub status: u16,
    pub message: String,
}

/// How storing an upload went.
#[derive(Debug, PartialEq, Eq)]
pub enum StoreOutcome {
    /// The file was written to this path.
    Saved(String),
    /// The storage directory could not be created, for this reason.
    NoDirectory(String),
    /// The file could not be written, for this reason.
    NotWritten(String),
}

/// What a query is told that cannot be stored.
pub open spec fn refusal(path: Seq<u8>) -> Seq<char> {
    if trim(path).len() == 0 {
        "Provided file path is empty"@
    } else {
        "Invalid Command"@
    }
}

/// The segments below the root under which the upload of a query is stored,
/// or none where the path is empty, padding only, or refused by the resolver.
pub open spec fn upload_segments(path: Seq<u8>) -> Option<Seq<Seq<u8>>> {
    if trim(path).len() == 0 {
        None
    } else {
        match relative_segments(path) {
            Ok(relative) => Some(relative),
            Err(_) => None,
        }
    }
}

/// The answer that tells how storing an upload went.
pub open spec fn store_answer(outcome: StoreOutcome) -> (u16, Seq<char>) {
    match outcome {
        StoreOutcome::Saved(path) => (200, "File saved successfully to "@ + path@),
        StoreOutcome::NoDirectory(reason) => (
            500,
            "Failed to create destination directory: "@ + reason@,
        ),
        StoreOutcome::NotWritten(reason) => (500, "Failed to save file: "@ + reason@),
    }
}

fn refuse(message: &str) -> (r: HttpReply)
    ensures
        r.status == 400,
        r.message@ == message@,
{
    HttpReply { status: 400, message: String::from_str(message) }
}

/// Where the upload of a query is stored: its path, resolved below `root`. A
/// query whose path is empty or padding only, and one whose path the resolver
/// refuses, is refused with status 400, and nothing is to be stored.
pub fn upload_target(query: &FileQuery, root: &[u8]) -> (r: Result<StoragePath, HttpReply>)
    ensures
        match r {
            Ok(path) => {
                &&& upload_segments(encode_utf8(query.path@)) == Some(path.relative())
                &&& path.root() == root@
            },
            Err(reply) => {
                &&& upload_segments(encode_utf8(query.path@)) is None
                &&& reply.status == 400
                &&& reply.message@ == refusal(encode_utf8(query.path@))
            },
        },
{
    let path = query.path.as_str().as_bytes();
    if trim_bytes(path).len() == 0 {
        return Err(refuse("Provided file path is empty"));
    }
    match resolve(root, path) {
        Ok(resolved) => Ok(resolved),
        Err(_) => Err(refuse("Invalid Command")),
    }
}

/// The answer that tells how storing an upload went.
pub fn store_reply(outcome: StoreOutcome) -> (r: HttpReply)
    ensures
        (r.status, r.message@) == store_answer(outcome),
{
    match outcome {
        StoreOutcome::Saved(path) => HttpReply {
            status: 200,
            message: String::from_str("File saved successfully to ").concat(path.as_str()),
        },
        StoreOutcome::NoDirectory(reason) => HttpReply {
            status: 500,
            message: String::from_str("Failed to create destination directory: ").concat(
                reason.as_str(),
            ),
        },
        StoreOutcome::NotWritten(reason) => HttpReply {
            status: 500,
            message: String::from_str("Failed to save file: ").concat(reason.as_str()),
        },
    }
}

} // verus!

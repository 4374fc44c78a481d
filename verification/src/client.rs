//! The initiating side: sending a file behind its header, and receiving one
//! behind the header that the server sent.
//!
//! Both routines work on bytes in memory. The caller reads the file or the
//! socket and writes what comes back; with a socket at hand it drives a
//! [`Transfer`](crate::transfer::Transfer) chunk by chunk instead.

use vstd::prelude::*;
use vstd::slice::{slice_subrange, slice_to_vec};
use crate::header::{
    header_line, parse_header, put_bytes, put_word, send_bytes, send_word, ProtocolError,
    TransferHeader,
};
use crate::text::{
    after_first_line, first_line, segments, split_line, split_pieces, trim, trim_bytes, views,
    Separator,
};
use crate::transfer::{chunk_count, marks_progress, receive_chunks, send_chunks, TransferError};

verus! {

/// Why nothing was uploaded.
#[derive(Clone, Copy, Debug, PartialEq, Eq, Structural)]
pub enum UploadError {
    /// The path is empty, or padding only.
    EmptyPath,
    /// The file holds no bytes.
    EmptyFile,
}

/// Why a download failed.
#[derive(Clone, Copy, Debug, PartialEq, Eq, Structural)]
pub enum DownloadError {
    /// What the server sent does not begin with a well-formed header line.
    Header(ProtocolError),
    /// The payload ended before the declared size was reached.
    Transfer(TransferError),
}

/// A file as it was received: the name that the header gave it, its bytes,
/// and the number of reads that the payload took.
#[derive(Debug, PartialEq, Eq)]
pub struct Download {
    pub name: Vec<u8>,
    pub data: Vec<u8>,
    pub reads: usize,
}

/// The name under which a file is sent: the last segment of its path, or the
/// path itself where it has no segment.
pub open spec fn file_name_of(path: Seq<u8>) -> Seq<u8> {
    if segments(path).len() > 0 {
        segments(path).last()
    } else {
        path
    }
}

/// What an upload puts on the wire: the header line, then the file's bytes.
pub open spec fn upload_wire(path: Seq<u8>, content: Seq<u8>) -> Seq<u8> {
    header_line(put_word(), file_name_of(path), content.len() as u64) + content
}

/// What a download takes from the wire: the name and the payload that the
/// header announces, or the reason why there is none.
pub open spec fn download_of(input: Seq<u8>) -> Result<(Seq<u8>, Seq<u8>), DownloadError> {
    match parse_header(send_word(), first_line(input)) {
        Err(e) => Err(DownloadError::Header(e)),
        Ok(h) => {
            let payload = after_first_line(input);
            if h.size <= payload.len() {
                Ok((h.filename, payload.take(h.size as int)))
            } else {
                Err(
                    DownloadError::Transfer(
                        TransferError::Truncated {
                            expected: h.size,
                            received: payload.len() as u64,
                        },
                    ),
                )
            }
        },
    }
}

/// The name under which the file at `path` is sent.
pub fn file_name(path: &[u8]) -> (r: Vec<u8>)
    ensures
        r@ == file_name_of(path@),
{
    let segs = split_pieces(Separator::Slash, path);
    if segs.len() > 0 {
        assert(views(segs@).last() == segs@[segs@.len() - 1]@);
        slice_to_vec(segs[segs.len() - 1].as_slice())
    } else {
        slice_to_vec(path)
    }
}

/// The header line of an upload, or why there is no upload: an empty path
/// and an empty file are refused.
pub open spec fn upload_header_of(path: Seq<u8>, size: u64) -> Result<Seq<u8>, UploadError> {
    if trim(path).len() == 0 {
        Err(UploadError::EmptyPath)
    } else if size == 0 {
        Err(UploadError::EmptyFile)
    } else {
        Ok(header_line(put_word(), file_name_of(path), size))
    }
}

/// The header line that opens the upload of the file at `path`, which holds
/// `size` bytes. An empty path and an empty file are refused.
pub fn upload_header(path: &[u8], size: u64) -> (r: Result<Vec<u8>, UploadError>)
    ensures
        match r {
            Ok(line) => upload_header_of(path@, size) == Ok::<Seq<u8>, UploadError>(line@),
            Err(e) => upload_header_of(path@, size) == Err::<Seq<u8>, UploadError>(e),
        },
{
    if trim_bytes(path).len() == 0 {
        return Err(UploadError::EmptyPath);
    }
    if size == 0 {
        return Err(UploadError::EmptyFile);
    }
    let header = TransferHeader { filename: file_name(path), size };
    Ok(header.encode(put_bytes().as_slice()))
}

/// Sends the file at `path`, whose bytes are `content`: appends to `out` the
/// header line and the bytes, chunk by chunk through a buffer of `buffer_len`
/// bytes, and returns the progress: the bytes sent so far, noted after each
/// chunk. An empty path and an empty file are refused, and nothing is written.
pub fn upload(path: &[u8], content: &[u8], buffer_len: usize, out: &mut Vec<u8>) -> (r: Result<
    Vec<u64>,
    UploadError,
>)
    requires
        buffer_len > 0,
    ensures
        match r {
            Ok(progress) => {
                &&& upload_header_of(path@, content@.len() as u64) is Ok
                &&& final(out)@ == old(out)@ + upload_wire(path@, content@)
                &&& marks_progress(progress@, content@.len(), buffer_len as nat)
            },
            Err(e) => {
                &&& upload_header_of(path@, content@.len() as u64) == Err::<Seq<u8>, UploadError>(e)
                &&& final(out)@ == old(out)@
            },
        },
{
    match upload_header(path, content.len() as u64) {
        Err(e) => Err(e),
        Ok(line) => {
            out.extend_from_slice(line.as_slice());
            let progress = send_chunks(content, buffer_len, out);
            assert(out@ =~= old(out)@ + upload_wire(path@, content@));
            Ok(progress)
        },
    }
}

/// Receives a file from what the server sent: reads the header line, then
/// exactly as many bytes as it declares, chunk by chunk through a buffer of
/// `buffer_len` bytes. Bytes behind the payload are left alone.
pub fn receive_files(input: &[u8], buffer_len: usize) -> (r: Result<Download, DownloadError>)
    requires
        buffer_len > 0,
    ensures
        match r {
            Ok(d) => {
                &&& download_of(input@) == Ok::<(Seq<u8>, Seq<u8>), DownloadError>(
                    (d.name@, d.data@),
                )
                &&& d.reads == chunk_count(d.data@.len(), buffer_len as nat)
            },
            Err(e) => download_of(input@) == Err::<(Seq<u8>, Seq<u8>), DownloadError>(e),
        },
{
    let cut = split_line(input);
    let line = slice_subrange(input, 0, cut.0);
    assert(line@ =~= first_line(input@));
    let payload = slice_subrange(input, cut.1, input.len());
    assert(payload@ =~= after_first_line(input@));
    match TransferHeader::decode(send_bytes().as_slice(), line) {
        Err(e) => Err(DownloadError::Header(e)),
        Ok(header) => match receive_chunks(payload, header.size, buffer_len) {
            Ok(got) => Ok(Download { name: header.filename, data: got.data, reads: got.reads }),
            Err(e) => Err(DownloadError::Transfer(e)),
        },
    }
}

} // verus!

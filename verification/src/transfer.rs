//! Chunked streaming of a payload whose size was declared up front.
//!
//! Both sides move the payload through a buffer of fixed capacity. The side
//! that holds a [`Transfer`] asks it how many bytes the next chunk may have,
//! performs the read or write, and reports how many bytes were moved. The
//! transfer ends when exactly the declared number of bytes has been moved.

use vstd::prelude::*;
use crate::text::copy_range;

verus! {

/// Why a transfer stopped before its declared size was reached.
#[derive(Clone, Copy, Debug, PartialEq, Eq, Structural)]
pub enum TransferError {
    /// The peer closed the stream while bytes were still owed.
    Truncated { expected: u64, received: u64 },
    /// More bytes were reported than were still owed.
    Overrun { expected: u64, received: u64 },
}

/// Progress of one transfer: the declared size and the bytes moved so far.
#[derive(Clone, Copy, Debug, PartialEq, Eq)]
pub struct Transfer {
    total: u64,
    done: u64,
}

/// Bytes of the next chunk: what is still owed, capped by the buffer.
pub open spec fn chunk_len(remaining: nat, buffer_len: nat) -> nat {
    if remaining <= buffer_len {
        remaining
    } else {
        buffer_len
    }
}

/// Number of chunks in which `size` bytes pass through a buffer of
/// `buffer_len` bytes: every chunk is full but the last.
pub open spec fn chunk_count(size: nat, buffer_len: nat) -> nat
    decreases size,
{
    if size == 0 || buffer_len == 0 {
        0
    } else {
        1 + chunk_count((size - chunk_len(size, buffer_len)) as nat, buffer_len)
    }
}

/// The chunks are as many as the size divided by the buffer's capacity,
/// rounded up.
pub proof fn lemma_chunk_count_is_ceiling(size: nat, buffer_len: nat)
    requires
        buffer_len > 0,
    ensures
        chunk_count(size, buffer_len) == (size + buffer_len - 1) / (buffer_len as int),
    decreases size,
{
    let b = buffer_len as int;
    if size == 0 {
        assert((b - 1) / b == 0) by (nonlinear_arith)
            requires
                b > 0,
        ;
    } else if size <= buffer_len {
        assert(chunk_count(0, buffer_len) == 0);
        assert((size + b - 1) / b == 1) by (nonlinear_arith)
            requires
                0 < size <= b,
        ;
    } else {
        lemma_chunk_count_is_ceiling((size - buffer_len) as nat, buffer_len);
        assert((size + b - 1) / b == 1 + (size - b + b - 1) / b) by (nonlinear_arith)
            requires
                b > 0,
                size > b,
        ;
    }
}

impl Transfer {
    #[verifier::type_invariant]
    spec fn within_total(&self) -> bool {
        self.done <= self.total
    }

    /// The declared size.
    pub closed spec fn total(&self) -> u64 {
        self.total
    }

    /// Bytes moved so far.
    pub closed spec fn transferred(&self) -> u64 {
        self.done
    }

    /// Bytes still owed.
    pub open spec fn remaining(&self) -> nat {
        (self.total() - self.transferred()) as nat
    }

    /// Nothing is owed any more.
    pub open spec fn complete(&self) -> bool {
        self.transferred() == self.total()
    }

    /// A transfer of `size` bytes of which none has been moved.
    pub fn new(size: u64) -> (t: Transfer)
        ensures
            t.total() == size,
            t.transferred() == 0,
    {
        Transfer { total: size, done: 0 }
    }

    pub fn declared_size(&self) -> (n: u64)
        ensures
            n == self.total(),
    {
        self.total
    }

    /// Cumulative bytes moved, for display beside the declared size.
    pub fn bytes_transferred(&self) -> (n: u64)
        ensures
            n == self.transferred(),
            n <= self.total(),
    {
        proof {
            use_type_invariant(self);
        }
        self.done
    }

    pub fn bytes_remaining(&self) -> (n: u64)
        ensures
            n == self.remaining(),
    {
        proof {
            use_type_invariant(self);
        }
        self.total - self.done
    }

    pub fn is_complete(&self) -> (b: bool)
        ensures
            b == self.complete(),
    {
        self.done == self.total
    }

    /// How many bytes to ask for next, given the capacity of the buffer.
    pub fn next_len(&self, buffer_len: usize) -> (n: usize)
        ensures
            n == chunk_len(self.remaining(), buffer_len as nat),
    {
        let remaining = self.bytes_remaining();
        if remaining <= buffer_len as u64 {
            remaining as usize
        } else {
            buffer_len
        }
    }

    /// Records that a chunk of `n` bytes was moved. A chunk of no bytes while
    /// bytes are owed means that the peer is gone; a chunk larger than what is
    /// owed cannot belong to this transfer. Either way nothing is recorded.
    pub fn advance(&mut self, n: usize) -> (r: Result<(), TransferError>)
        ensures
            final(self).total() == old(self).total(),
            match r {
                Ok(()) => {
                    &&& n <= old(self).remaining()
                    &&& n > 0 || old(self).complete()
                    &&& final(self).transferred() == old(self).transferred() + n
                },
                Err(e) => {
                    &&& final(self).transferred() == old(self).transferred()
                    &&& if n == 0 {
                        &&& !old(self).complete()
                        &&& e == (TransferError::Truncated {
                            expected: old(self).total(),
                            received: old(self).transferred(),
                        })
                    } else {
                        &&& n > old(self).remaining()
                        &&& e == (TransferError::Overrun {
                            expected: old(self).total(),
                            received: old(self).transferred(),
                        })
                    }
                },
            },
    {
        proof {
            use_type_invariant(&*self);
        }
        let remaining = self.total - self.done;
        if n == 0 {
            if remaining > 0 {
                return Err(TransferError::Truncated { expected: self.total, received: self.done });
            }
            return Ok(());
        }
        if n as u64 > remaining {
            return Err(TransferError::Overrun { expected: self.total, received: self.done });
        }
        self.done = self.done + n as u64;
        Ok(())
    }
}

/// What a receiver got: the payload and the number of reads it took.
#[derive(Debug, PartialEq, Eq)]
pub struct Received {
    pub data: Vec<u8>,
    pub reads: usize,
}

/// Bytes moved once chunk number `i`, counted from zero, has passed.
pub open spec fn chunk_end(i: int, size: nat, buffer_len: nat) -> nat {
    if (i + 1) * buffer_len <= size {
        ((i + 1) * buffer_len) as nat
    } else {
        size
    }
}

/// Whether `marks` are the bytes moved after each chunk of a payload of
/// `size` bytes: one mark for each chunk, the last at `size`.
pub open spec fn marks_progress(marks: Seq<u64>, size: nat, buffer_len: nat) -> bool {
    &&& marks.len() == chunk_count(size, buffer_len)
    &&& forall|i: int| 0 <= i < marks.len() ==> #[trigger] marks[i] == chunk_end(i, size, buffer_len)
}

/// Streams `data` into `out` through a buffer of `buffer_len` bytes, and
/// returns the progress: the bytes moved so far, noted after each chunk.
pub fn send_chunks(data: &[u8], buffer_len: usize, out: &mut Vec<u8>) -> (progress: Vec<u64>)
    requires
        buffer_len > 0,
    ensures
        final(out)@ == old(out)@ + data@,
        marks_progress(progress@, data@.len(), buffer_len as nat),
{
    let len = data.len();
    let mut transfer = Transfer::new(len as u64);
    let mut progress: Vec<u64> = Vec::new();
    let mut pos: usize = 0;
    assert(data@.take(0) =~= Seq::<u8>::empty());
    assert(out@ =~= old(out)@ + data@.take(0));
    while !transfer.is_complete()
        invariant
            buffer_len > 0,
            len == data@.len(),
            transfer.total() == data@.len(),
            transfer.transferred() == pos,
            pos <= data@.len(),
            out@ == old(out)@ + data@.take(pos as int),
            progress@.len() <= pos,
            pos < len ==> pos == progress@.len() * buffer_len,
            progress@.len() + chunk_count((data@.len() - pos) as nat, buffer_len as nat)
                == chunk_count(data@.len(), buffer_len as nat),
            forall|i: int|
                0 <= i < progress@.len() ==> #[trigger] progress@[i] == chunk_end(
                    i,
                    len as nat,
                    buffer_len as nat,
                ),
        decreases data@.len() - pos,
    {
        let n = transfer.next_len(buffer_len);
        let chunk = copy_range(data, pos, pos + n);
        out.extend_from_slice(chunk.as_slice());
        let moved = transfer.advance(n);
        assert(moved is Ok);
        assert(data@.take(pos as int) + data@.subrange(pos as int, pos + n) =~= data@.take(
            pos + n,
        ));
        proof {
            let k = progress@.len() as int;
            assert((k + 1) * buffer_len == k * buffer_len + buffer_len) by (nonlinear_arith);
            assert(pos + n == chunk_end(k, len as nat, buffer_len as nat));
        }
        pos = pos + n;
        progress.push(pos as u64);
    }
    assert(data@.take(pos as int) =~= data@);
    progress
}

/// Reads a payload of `size` bytes from the front of `input` through a buffer
/// of `buffer_len` bytes. Bytes of `input` beyond the payload are left alone.
/// An input that ends before `size` bytes were read is a truncated transfer.
pub fn receive_chunks(input: &[u8], size: u64, buffer_len: usize) -> (r: Result<
    Received,
    TransferError,
>)
    requires
        buffer_len > 0,
    ensures
        match r {
            Ok(got) => {
                &&& size <= input@.len()
                &&& got.data@ == input@.take(size as int)
                &&& got.reads == chunk_count(size as nat, buffer_len as nat)
            },
            Err(e) => {
                &&& size > input@.len()
                &&& e == (TransferError::Truncated { expected: size, received: input@.len() as u64 })
            },
        },
{
    let mut transfer = Transfer::new(size);
    let mut data: Vec<u8> = Vec::new();
    let mut reads: usize = 0;
    let mut pos: usize = 0;
    assert(data@ =~= input@.take(0));
    while !transfer.is_complete()
        invariant
            buffer_len > 0,
            transfer.total() == size,
            transfer.transferred() == pos,
            pos <= input@.len(),
            pos <= size,
            data@ == input@.take(pos as int),
            reads <= pos,
            reads + chunk_count((size - pos) as nat, buffer_len as nat) == chunk_count(
                size as nat,
                buffer_len as nat,
            ),
        decreases size - pos,
    {
        let wanted = transfer.next_len(buffer_len);
        let available = input.len() - pos;
        let n = if wanted <= available {
            wanted
        } else {
            available
        };
        let chunk = copy_range(input, pos, pos + n);
        match transfer.advance(n) {
            Ok(()) => {
                data.extend_from_slice(chunk.as_slice());
                assert(input@.take(pos as int) + input@.subrange(pos as int, pos + n)
                    =~= input@.take(pos + n));
                if n < wanted {
                    // a short read: the next one finds the input at its end
                    assert(pos + n == input@.len());
                    assert(!transfer.complete());
                    let end = transfer.advance(0);
                    assert(end is Err);
                    match end {
                        Ok(()) => {},
                        Err(e) => {
                            return Err(e);
                        },
                    }
                }
                pos = pos + n;
                reads = reads + 1;
            },
            Err(e) => {
                return Err(e);
            },
        }
    }
    Ok(Received { data, reads })
}

} // verus!

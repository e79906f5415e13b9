//! The streaming transfer session: per-command state that tracks how many
//! bytes remain to be moved, the step-by-step receive discipline, the
//! acknowledgment gate, and the end-to-end receive model with its laws.

use crate::codec::spec_u64_from_be_bytes;
use crate::codec::spec_u64_to_be_bytes;
use crate::codec::lemma_u64_be_bytes_round_trip;
use crate::shared::chunk_from_slice;
use crate::shared::spec_written;
use crate::shared::writer_output;
use crate::shared::FileData;
use crate::shared::WriterStatus;
use crate::shared::BUFFER_SIZE;
use vstd::prelude::*;
use vstd::slice::slice_subrange;

verus! {

/// Why a transfer failed. Connection-level I/O errors stay with the
/// caller that owns the socket; these are the failures the transfer
/// discipline itself detects.
#[derive(Clone, Copy, PartialEq, Eq, Structural, Debug)]
pub enum TransferError {
    /// The peer closed the connection before the declared size was read.
    EarlyDisconnect,
    /// The writer worker reported a failure at the join.
    WriterFailed,
}

/// What one socket read means for the transfer.
#[derive(Clone, Copy, PartialEq, Eq, Structural, Debug)]
pub enum ReadOutcome {
    /// Bytes arrived; the remaining count moved down by that many.
    Advanced,
    /// A zero-byte read while bytes remained: the peer closed early.
    /// The transfer must fail; the partial file is never acknowledged.
    EarlyClose,
}

/// Transient state bound to one command's execution: the declared total
/// payload size and the count of bytes still to be transferred.
pub struct TransferSession {
    pub total: u64,
    pub remaining: u64,
}

impl TransferSession {
    /// A session is well formed while the remaining count never exceeds
    /// the declared total.
    pub open spec fn wf(self) -> bool {
        self.remaining <= self.total
    }

    /// Bytes moved so far.
    pub open spec fn consumed(self) -> int {
        self.total - self.remaining
    }

    /// Opens a session for a payload of `size` bytes; nothing is moved yet.
    pub fn new(size: u64) -> (s: Self)
        ensures
            s.wf(),
            s.total == size,
            s.remaining == size,
            s.consumed() == 0,
    {
        TransferSession { total: size, remaining: size }
    }

    /// How many bytes the next socket read may ask for: the remaining
    /// count, capped by the chunk capacity — never more than remains,
    /// so the session reads exactly the declared size and no further.
    pub fn next_read_len(&self) -> (n: usize)
        ensures
            n == if self.remaining < BUFFER_SIZE { self.remaining as int } else {
                BUFFER_SIZE as int
            },
            n <= BUFFER_SIZE,
            n <= self.remaining,
            self.remaining > 0 ==> n > 0,
    {
        if self.remaining < BUFFER_SIZE as u64 {
            self.remaining as usize
        } else {
            BUFFER_SIZE
        }
    }

    /// Accounts one socket read of `n` bytes. A zero-byte read while
    /// bytes remain is the early-close outcome: the peer is gone and the
    /// transfer has failed; it is never silently accepted.
    pub fn on_read(&mut self, n: usize) -> (r: ReadOutcome)
        requires
            old(self).wf(),
            old(self).remaining > 0,
            n <= old(self).remaining,
            n <= BUFFER_SIZE,
        ensures
            final(self).wf(),
            final(self).total == old(self).total,
            final(self).remaining == old(self).remaining - n,
            r == ReadOutcome::EarlyClose <==> n == 0,
    {
        if n == 0 {
            ReadOutcome::EarlyClose
        } else {
            self.remaining = self.remaining - n as u64;
            ReadOutcome::Advanced
        }
    }

    /// Whether every declared byte has been moved.
    pub fn is_complete(&self) -> (b: bool)
        ensures
            b <==> self.remaining == 0,
    {
        self.remaining == 0
    }
}

/// The 2-byte acknowledgment an uploader is owed once its file is durable.
pub open spec fn spec_ack_bytes() -> Seq<u8> {
    seq![79u8, 75u8]  // "OK"
}

/// The acknowledgment gate: the `"OK"` bytes exist exactly when the
/// session has consumed every declared byte and the writer worker has
/// been joined and reported success. An incomplete transfer or a failed
/// writer yields nothing, so a peer can never observe the acknowledgment
/// before the destination file is fully written, flushed and closed.
pub fn ack_bytes(session: &TransferSession, writer: WriterStatus) -> (r: Option<Vec<u8>>)
    ensures
        r is Some <==> (session.remaining == 0 && writer == WriterStatus::Completed),
        r is Some ==> r->Some_0@ == spec_ack_bytes(),
{
    if session.remaining == 0 && writer == WriterStatus::Completed {
        let mut v: Vec<u8> = Vec::new();
        v.push(79);
        v.push(75);
        proof {
            assert(v@ =~= spec_ack_bytes());
        }
        Some(v)
    } else {
        None
    }
}

/// The length of the next chunk when `remaining` bytes are still owed
/// and `avail` bytes are still available from the peer.
pub open spec fn spec_next_chunk_len(remaining: nat, avail: nat) -> nat {
    let want: nat = if remaining < BUFFER_SIZE {
        remaining
    } else {
        BUFFER_SIZE as nat
    };
    if want < avail {
        want
    } else {
        avail
    }
}

/// What the receive path delivers to the writer, as a function of the
/// bytes the peer sends and the size it declared: the declared prefix
/// when the peer supplies it, nothing when the peer closes early.
pub open spec fn spec_receive(input: Seq<u8>, declared: nat) -> Option<Seq<u8>>
    decreases declared,
{
    if declared == 0 {
        Some(Seq::empty())
    } else if input.len() == 0 {
        None
    } else {
        let n = spec_next_chunk_len(declared, input.len());
        match spec_receive(input.skip(n as int), (declared - n) as nat) {
            Some(rest) => Some(input.take(n as int) + rest),
            None => None,
        }
    }
}

/// The receive loop consumes exactly the declared size and no more: when
/// the peer supplies at least `declared` bytes the destination holds
/// exactly the first `declared` of them (an empty declaration yields an
/// empty file), and when the peer supplies fewer the transfer fails.
pub proof fn lemma_receive_exact(input: Seq<u8>, declared: nat)
    ensures
        input.len() >= declared ==> spec_receive(input, declared) == Some(
            input.take(declared as int),
        ),
        input.len() < declared ==> spec_receive(input, declared) is None,
    decreases declared,
{
    if declared == 0 {
        assert(input.take(0) =~= Seq::<u8>::empty());
    } else if input.len() == 0 {
    } else {
        let n = spec_next_chunk_len(declared, input.len());
        lemma_receive_exact(input.skip(n as int), (declared - n) as nat);
        if input.len() >= declared {
            assert(input.take(n as int) + input.skip(n as int).take(declared - n) =~= input.take(
                declared as int,
            ));
        }
    }
}

/// Runs one whole receive against an in-memory byte stream: the
/// step-by-step discipline of `TransferSession`, chunk by chunk, handed
/// to the writer model. Consumes exactly `declared` bytes of `input` and
/// no more; a stream that ends before `declared` bytes arrived is the
/// early-disconnect failure, never a silent truncation.
pub fn run_receive(input: &[u8], declared: u64) -> (r: Result<Vec<u8>, TransferError>)
    ensures
        r is Ok <==> input@.len() >= declared,
        r is Ok ==> r->Ok_0@ == input@.take(declared as int),
        r is Ok ==> Some(r->Ok_0@) == spec_receive(input@, declared as nat),
        r is Err ==> r->Err_0 == TransferError::EarlyDisconnect && spec_receive(
            input@,
            declared as nat,
        ) is None,
{
    let mut session = TransferSession::new(declared);
    let mut chunks: Vec<FileData> = Vec::new();
    let mut pos: usize = 0;
    while session.remaining > 0
        invariant
            session.wf(),
            session.total == declared,
            pos <= input@.len(),
            pos as int == session.consumed(),
            forall|j: int| 0 <= j < chunks@.len() ==> (#[trigger] chunks@[j]).wf(),
            spec_written(chunks@) == input@.take(pos as int),
        decreases session.remaining,
    {
        let want = session.next_read_len();
        let avail = input.len() - pos;
        let n = if want < avail {
            want
        } else {
            avail
        };
        if n == 0 {
            proof {
                lemma_receive_exact(input@, declared as nat);
            }
            return Err(TransferError::EarlyDisconnect);
        }
        let piece = slice_subrange(input, pos, pos + n);
        let fd = chunk_from_slice(piece);
        let ghost prev = chunks@;
        chunks.push(fd);
        proof {
            assert(chunks@.drop_last() =~= prev);
            assert(spec_written(chunks@) == spec_written(prev) + fd.payload());
            assert(input@.take(pos as int) + input@.subrange(pos as int, pos + n) =~= input@.take(
                pos + n,
            ));
        }
        session.on_read(n);
        pos = pos + n;
    }
    let out = writer_output(&chunks);
    proof {
        lemma_receive_exact(input@, declared as nat);
    }
    Ok(out)
}

/// Round trip: uploading a file of any content stores exactly its bytes,
/// and downloading it again — with the stored size re-framed through the
/// 8-byte size field of the codec — delivers exactly those bytes, so a
/// send followed by a get reconstructs the file byte for byte.
pub proof fn lemma_send_get_round_trip(content: Seq<u8>)
    requires
        content.len() <= u64::MAX,
    ensures
        spec_receive(content, content.len()) == Some(content),
        spec_u64_from_be_bytes(spec_u64_to_be_bytes(content.len() as u64)) == content.len(),
        spec_receive(
            content,
            spec_u64_from_be_bytes(spec_u64_to_be_bytes(content.len() as u64)) as nat,
        ) == Some(content),
{
    lemma_receive_exact(content, content.len());
    assert(content.take(content.len() as int) =~= content);
    lemma_u64_be_bytes_round_trip();
}

} // verus!

//! The chunk type handed from the socket reader to the file writer, and
//! the model of what the writer puts on disk.

use vstd::prelude::*;
use vstd::slice::slice_index_get;
use vstd::slice::slice_subrange;
use vstd::string::StringExecFns;

verus! {

/// Capacity of one transfer chunk, in bytes.
pub const BUFFER_SIZE: usize = 8192;

/// One unit of transfer: a fixed-capacity buffer together with the number
/// of bytes of it that are actually valid. Only the valid prefix is ever
/// written to disk.
pub struct FileData {
    pub data: [u8; BUFFER_SIZE],
    pub actual_buffer_size: usize,
}

impl FileData {
    /// A chunk is well formed when its valid length does not exceed the
    /// buffer capacity.
    pub open spec fn wf(self) -> bool {
        self.actual_buffer_size <= BUFFER_SIZE
    }

    /// The bytes a chunk carries: the valid prefix of its buffer.
    pub open spec fn payload(self) -> Seq<u8>
        recommends
            self.wf(),
    {
        self.data@.take(self.actual_buffer_size as int)
    }
}

/// The valid prefix of a chunk's buffer: exactly the bytes the chunk
/// carries, never the full capacity.
pub fn valid_prefix(fd: &FileData) -> (r: &[u8])
    requires
        fd.wf(),
    ensures
        r@ == fd.payload(),
{
    slice_subrange(fd.data.as_slice(), 0, fd.actual_buffer_size)
}

/// Builds a chunk that carries exactly the bytes of `src`.
pub fn chunk_from_slice(src: &[u8]) -> (fd: FileData)
    requires
        src@.len() <= BUFFER_SIZE,
    ensures
        fd.wf(),
        fd.actual_buffer_size == src@.len(),
        fd.payload() == src@,
{
    let mut data: [u8; BUFFER_SIZE] = [0u8; BUFFER_SIZE];
    let mut i: usize = 0;
    while i < src.len()
        invariant
            src@.len() <= BUFFER_SIZE,
            i <= src@.len(),
            data@.len() == BUFFER_SIZE,
            forall|j: int| 0 <= j < i ==> data@[j] == src@[j],
        decreases src@.len() - i,
    {
        let b = *slice_index_get(src, i);
        data[i] = b;
        i += 1;
    }
    let fd = FileData { data, actual_buffer_size: src.len() };
    proof {
        assert(fd.payload() =~= src@);
    }
    fd
}

/// The file content the writer produces from an ordered stream of
/// chunks: the valid prefixes, concatenated in arrival order.
pub open spec fn spec_written(chunks: Seq<FileData>) -> Seq<u8>
    decreases chunks.len(),
{
    if chunks.len() == 0 {
        Seq::empty()
    } else {
        spec_written(chunks.drop_last()) + chunks.last().payload()
    }
}

/// The writer model: a single owner drains the stream and writes each
/// chunk's valid prefix in arrival order, so the destination file holds
/// exactly this concatenation. The caller puts these bytes on disk in
/// one sweep, or chunk by chunk as the stream drains; either way no
/// other writer touches the destination during the transfer.
pub fn writer_output(chunks: &Vec<FileData>) -> (r: Vec<u8>)
    requires
        forall|j: int| 0 <= j < chunks@.len() ==> (#[trigger] chunks@[j]).wf(),
    ensures
        r@ == spec_written(chunks@),
{
    let mut out: Vec<u8> = Vec::new();
    let mut i: usize = 0;
    while i < chunks.len()
        invariant
            forall|j: int| 0 <= j < chunks@.len() ==> (#[trigger] chunks@[j]).wf(),
            i <= chunks@.len(),
            out@ == spec_written(chunks@.take(i as int)),
        decreases chunks@.len() - i,
    {
        let prefix = valid_prefix(&chunks[i]);
        crate::codec::push_all(&mut out, prefix);
        proof {
            assert(chunks@.take(i + 1).drop_last() =~= chunks@.take(i as int));
            assert(chunks@.take(i + 1).last() == chunks@[i as int]);
        }
        i += 1;
    }
    proof {
        assert(chunks@.take(chunks@.len() as int) =~= chunks@);
    }
    out
}

/// What `String::from_utf8_lossy` makes of a byte string: the UTF-8
/// decoding with every invalid sequence replaced, a function of the
/// bytes alone.
pub uninterp spec fn lossy_decode(bytes: Seq<u8>) -> Seq<char>;

/// Relies on alloc's `String::from_utf8_lossy`: decodes UTF-8, replacing
/// invalid sequences rather than rejecting them, so bytes that are all
/// ASCII come back as exactly those characters.
#[verifier::external_body]
fn decode_lossy(bytes: &[u8]) -> (r: String)
    ensures
        r@ == lossy_decode(bytes@),
        (forall|j: int| 0 <= j < bytes@.len() ==> bytes@[j] < 0x80) ==> r@ == bytes@.map(
            |j: int, b: u8| b as char,
        ),
{
    String::from_utf8_lossy(bytes).into_owned()
}

/// Decodes a filename received on the wire. Invalid UTF-8 is replaced,
/// never rejected, so every transmitted filename decodes to something.
pub fn parse_filename(bytes: &[u8]) -> (r: String)
    ensures
        r@ == lossy_decode(bytes@),
        (forall|j: int| 0 <= j < bytes@.len() ==> bytes@[j] < 0x80) ==> r@ == bytes@.map(
            |j: int, b: u8| b as char,
        ),
{
    decode_lossy(bytes)
}

/// The destination a received file is written to: a fixed role prefix
/// (`"received_"` on a server, `"downloaded_"` on a client) concatenated
/// with the transmitted name as given — no normalization, no traversal
/// protection.
pub fn destination_name(prefix: &str, name: &str) -> (r: String)
    ensures
        r@ == prefix@ + name@,
{
    let mut s: String = prefix.to_owned();
    s.append(name);
    s
}

/// How a writer worker ended, as its owner observes it at the join.
#[derive(Clone, Copy, PartialEq, Eq, Structural, Debug)]
pub enum WriterStatus {
    /// Every chunk was written, the file was flushed and closed.
    Completed,
    /// A disk write or the flush failed.
    IoFailed,
    /// The worker terminated abnormally.
    Panicked,
}

} // verus!

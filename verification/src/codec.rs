//! Wire-protocol codec: command tags, status tags, big-endian integer
//! fields and the length-prefixed filename frame.

use vstd::prelude::*;
use vstd::slice::slice_index_get;

verus! {

/// The two request commands of the protocol, carried as fixed 4-byte
/// ASCII tags on the wire: `"SEND"` for an upload, `"GET "` (with a
/// trailing space) for a download.
#[derive(Clone, Copy, PartialEq, Eq, Structural, Debug)]
pub enum Command {
    /// The peer uploads a file to the responder (`"SEND"`).
    Upload,
    /// The peer downloads a file from the responder (`"GET "`).
    Download,
}

/// The 4-byte tag that carries a command on the wire.
pub open spec fn spec_command_tag(c: Command) -> Seq<u8> {
    match c {
        Command::Upload => seq![83u8, 69u8, 78u8, 68u8],  // "SEND"
        Command::Download => seq![71u8, 69u8, 84u8, 32u8],  // "GET "
    }
}

/// Encodes a command as its 4-byte wire tag.
pub fn encode_command(c: Command) -> (r: Vec<u8>)
    ensures
        r@ == spec_command_tag(c),
        r@.len() == 4,
{
    let mut v: Vec<u8> = Vec::new();
    match c {
        Command::Upload => {
            v.push(83);
            v.push(69);
            v.push(78);
            v.push(68);
        },
        Command::Download => {
            v.push(71);
            v.push(69);
            v.push(84);
            v.push(32);
        },
    }
    proof {
        assert(v@ =~= spec_command_tag(c));
    }
    v
}

/// Decodes a 4-byte wire tag. Exactly the two known tags are accepted;
/// any other value is the "unknown command" outcome, on which a handler
/// closes the connection without responding.
pub fn parse_command(tag: &[u8]) -> (r: Option<Command>)
    requires
        tag@.len() == 4,
    ensures
        r == Some(Command::Upload) <==> tag@ == spec_command_tag(Command::Upload),
        r == Some(Command::Download) <==> tag@ == spec_command_tag(Command::Download),
        r is None <==> (tag@ != spec_command_tag(Command::Upload) && tag@ != spec_command_tag(
            Command::Download,
        )),
{
    let b0 = *slice_index_get(tag, 0);
    let b1 = *slice_index_get(tag, 1);
    let b2 = *slice_index_get(tag, 2);
    let b3 = *slice_index_get(tag, 3);
    if b0 == 83 && b1 == 69 && b2 == 78 && b3 == 68 {
        proof {
            assert(tag@ =~= spec_command_tag(Command::Upload));
        }
        Some(Command::Upload)
    } else if b0 == 71 && b1 == 69 && b2 == 84 && b3 == 32 {
        proof {
            assert(tag@ =~= spec_command_tag(Command::Download));
        }
        Some(Command::Download)
    } else {
        None
    }
}

/// The responder's answer to a download request, sent before any size
/// or payload: `"OK"` (2 bytes) when the file exists, `"ERR"` (3 bytes)
/// when it does not.
#[derive(Clone, Copy, PartialEq, Eq, Structural, Debug)]
pub enum GetStatus {
    /// The requested file exists; size and payload follow (`"OK"`).
    Found,
    /// The requested file does not exist; the connection closes (`"ERR"`).
    Missing,
}

/// The tag that carries a status on the wire.
pub open spec fn spec_status_bytes(s: GetStatus) -> Seq<u8> {
    match s {
        GetStatus::Found => seq![79u8, 75u8],  // "OK"
        GetStatus::Missing => seq![69u8, 82u8, 82u8],  // "ERR"
    }
}

/// Encodes a status as its wire tag.
pub fn encode_status(s: GetStatus) -> (r: Vec<u8>)
    ensures
        r@ == spec_status_bytes(s),
{
    let mut v: Vec<u8> = Vec::new();
    match s {
        GetStatus::Found => {
            v.push(79);
            v.push(75);
        },
        GetStatus::Missing => {
            v.push(69);
            v.push(82);
            v.push(82);
        },
    }
    proof {
        assert(v@ =~= spec_status_bytes(s));
    }
    v
}

/// What a downloader concludes from the first two status bytes it reads.
/// The two tags differ in length, so a client first reads two bytes; on
/// `Failed` one more byte (the final `'R'` of `"ERR"`) is still on the
/// wire and is drained before the connection closes.
#[derive(Clone, Copy, PartialEq, Eq, Structural, Debug)]
pub enum StatusParse {
    /// The two bytes are `"OK"`: a size field and the payload follow.
    Succeeded,
    /// The two bytes are `"ER"`: the file was not found.
    Failed,
    /// Any other two bytes: the responder broke the protocol.
    Malformed,
}

/// The conclusion the first two status bytes support.
pub open spec fn spec_parse_status(b0: u8, b1: u8) -> StatusParse {
    if b0 == 79 && b1 == 75 {
        StatusParse::Succeeded
    } else if b0 == 69 && b1 == 82 {
        StatusParse::Failed
    } else {
        StatusParse::Malformed
    }
}

/// Classifies the first two status bytes read from the wire.
pub fn parse_status_prefix(b0: u8, b1: u8) -> (r: StatusParse)
    ensures
        r == spec_parse_status(b0, b1),
{
    if b0 == 79 && b1 == 75 {
        StatusParse::Succeeded
    } else if b0 == 69 && b1 == 82 {
        StatusParse::Failed
    } else {
        StatusParse::Malformed
    }
}

/// Parsing the first two bytes of an encoded status recovers it: a
/// found file is read as success, a missing one as failure, so a
/// download of an absent file always surfaces as `Failed`, never as a
/// payload.
pub proof fn lemma_status_round_trip(s: GetStatus)
    ensures
        s == GetStatus::Found ==> spec_parse_status(
            spec_status_bytes(s)[0],
            spec_status_bytes(s)[1],
        ) == StatusParse::Succeeded,
        s == GetStatus::Missing ==> spec_parse_status(
            spec_status_bytes(s)[0],
            spec_status_bytes(s)[1],
        ) == StatusParse::Failed,
{
}

/// A `u32` as the 4-byte big-endian field the protocol uses for
/// filename lengths.
pub open spec fn spec_u32_to_be_bytes(x: u32) -> Seq<u8> {
    seq![
        (((x >> 24) & 0xff) as u8),
        (((x >> 16) & 0xff) as u8),
        (((x >> 8) & 0xff) as u8),
        ((x & 0xff) as u8),
    ]
}

/// The `u32` a 4-byte big-endian field denotes.
pub open spec fn spec_u32_from_be_bytes(s: Seq<u8>) -> u32
    recommends
        s.len() == 4,
{
    ((s[0] as u32) << 24) | ((s[1] as u32) << 16) | ((s[2] as u32) << 8) | (s[3] as u32)
}

/// Encoding a `u32` big-endian and reading the field back is the
/// identity, in both directions.
pub proof fn lemma_u32_be_bytes_round_trip()
    ensures
        forall|x: u32|
            {
                &&& (#[trigger] spec_u32_to_be_bytes(x)).len() == 4
                &&& spec_u32_from_be_bytes(spec_u32_to_be_bytes(x)) == x
            },
        forall|s: Seq<u8>|
            s.len() == 4 ==> #[trigger] spec_u32_to_be_bytes(spec_u32_from_be_bytes(s)) == s,
{
    assert forall|x: u32|
        {
            &&& (#[trigger] spec_u32_to_be_bytes(x)).len() == 4
            &&& spec_u32_from_be_bytes(spec_u32_to_be_bytes(x)) == x
        } by {
        assert((((((x >> 24) & 0xff) as u8) as u32) << 24) | (((((x >> 16) & 0xff) as u8)
            as u32) << 16) | (((((x >> 8) & 0xff) as u8) as u32) << 8) | (((x & 0xff) as u8)
            as u32) == x) by (bit_vector);
    }
    assert forall|s: Seq<u8>| s.len() == 4 implies #[trigger] spec_u32_to_be_bytes(
        spec_u32_from_be_bytes(s),
    ) == s by {
        let x = spec_u32_from_be_bytes(s);
        let s0 = s[0];
        let s1 = s[1];
        let s2 = s[2];
        let s3 = s[3];
        assert((x == ((s0 as u32) << 24) | ((s1 as u32) << 16) | ((s2 as u32) << 8) | (s3
            as u32)) ==> (s0 == (((x >> 24) & 0xff) as u8) && s1 == (((x >> 16) & 0xff) as u8)
            && s2 == (((x >> 8) & 0xff) as u8) && s3 == ((x & 0xff) as u8))) by (bit_vector);
        assert(spec_u32_to_be_bytes(x) =~= s);
    }
}

/// Writes a `u32` as its 4-byte big-endian field.
pub fn u32_to_be_bytes(x: u32) -> (r: Vec<u8>)
    ensures
        r@ == spec_u32_to_be_bytes(x),
        r@.len() == 4,
{
    let mut v: Vec<u8> = Vec::new();
    v.push(((x >> 24) & 0xff) as u8);
    v.push(((x >> 16) & 0xff) as u8);
    v.push(((x >> 8) & 0xff) as u8);
    v.push((x & 0xff) as u8);
    proof {
        assert(v@ =~= spec_u32_to_be_bytes(x));
    }
    v
}

/// Reads the `u32` a 4-byte big-endian field denotes.
pub fn u32_from_be_bytes(s: &[u8]) -> (x: u32)
    requires
        s@.len() == 4,
    ensures
        x == spec_u32_from_be_bytes(s@),
{
    let b0 = *slice_index_get(s, 0);
    let b1 = *slice_index_get(s, 1);
    let b2 = *slice_index_get(s, 2);
    let b3 = *slice_index_get(s, 3);
    ((b0 as u32) << 24) | ((b1 as u32) << 16) | ((b2 as u32) << 8) | (b3 as u32)
}

/// A `u64` as the 8-byte big-endian field the protocol uses for
/// payload sizes.
pub open spec fn spec_u64_to_be_bytes(x: u64) -> Seq<u8> {
    seq![
        (((x >> 56) & 0xff) as u8),
        (((x >> 48) & 0xff) as u8),
        (((x >> 40) & 0xff) as u8),
        (((x >> 32) & 0xff) as u8),
        (((x >> 24) & 0xff) as u8),
        (((x >> 16) & 0xff) as u8),
        (((x >> 8) & 0xff) as u8),
        ((x & 0xff) as u8),
    ]
}

/// The `u64` an 8-byte big-endian field denotes.
pub open spec fn spec_u64_from_be_bytes(s: Seq<u8>) -> u64
    recommends
        s.len() == 8,
{
    ((s[0] as u64) << 56) | ((s[1] as u64) << 48) | ((s[2] as u64) << 40) | ((s[3] as u64) << 32)
        | ((s[4] as u64) << 24) | ((s[5] as u64) << 16) | ((s[6] as u64) << 8) | (s[7] as u64)
}

/// Encoding a `u64` big-endian and reading the field back is the
/// identity, in both directions.
pub proof fn lemma_u64_be_bytes_round_trip()
    ensures
        forall|x: u64|
            {
                &&& (#[trigger] spec_u64_to_be_bytes(x)).len() == 8
                &&& spec_u64_from_be_bytes(spec_u64_to_be_bytes(x)) == x
            },
        forall|s: Seq<u8>|
            s.len() == 8 ==> #[trigger] spec_u64_to_be_bytes(spec_u64_from_be_bytes(s)) == s,
{
    assert forall|x: u64|
        {
            &&& (#[trigger] spec_u64_to_be_bytes(x)).len() == 8
            &&& spec_u64_from_be_bytes(spec_u64_to_be_bytes(x)) == x
        } by {
        assert((((((x >> 56) & 0xff) as u8) as u64) << 56) | (((((x >> 48) & 0xff) as u8)
            as u64) << 48) | (((((x >> 40) & 0xff) as u8) as u64) << 40) | (((((x >> 32)
            & 0xff) as u8) as u64) << 32) | (((((x >> 24) & 0xff) as u8) as u64) << 24) | (((((
        x >> 16) & 0xff) as u8) as u64) << 16) | (((((x >> 8) & 0xff) as u8) as u64) << 8) | (((
        x & 0xff) as u8) as u64) == x) by (bit_vector);
    }
    assert forall|s: Seq<u8>| s.len() == 8 implies #[trigger] spec_u64_to_be_bytes(
        spec_u64_from_be_bytes(s),
    ) == s by {
        let x = spec_u64_from_be_bytes(s);
        let s0 = s[0];
        let s1 = s[1];
        let s2 = s[2];
        let s3 = s[3];
        let s4 = s[4];
        let s5 = s[5];
        let s6 = s[6];
        let s7 = s[7];
        assert((x == ((s0 as u64) << 56) | ((s1 as u64) << 48) | ((s2 as u64) << 40) | ((s3
            as u64) << 32) | ((s4 as u64) << 24) | ((s5 as u64) << 16) | ((s6 as u64) << 8) | (
        s7 as u64)) ==> (s0 == (((x >> 56) & 0xff) as u8) && s1 == (((x >> 48) & 0xff) as u8)
            && s2 == (((x >> 40) & 0xff) as u8) && s3 == (((x >> 32) & 0xff) as u8) && s4 == (((
        x >> 24) & 0xff) as u8) && s5 == (((x >> 16) & 0xff) as u8) && s6 == (((x >> 8) & 0xff)
            as u8) && s7 == ((x & 0xff) as u8))) by (bit_vector);
        assert(spec_u64_to_be_bytes(x) =~= s);
    }
}

/// Writes a `u64` as its 8-byte big-endian field.
pub fn u64_to_be_bytes(x: u64) -> (r: Vec<u8>)
    ensures
        r@ == spec_u64_to_be_bytes(x),
        r@.len() == 8,
{
    let mut v: Vec<u8> = Vec::new();
    v.push(((x >> 56) & 0xff) as u8);
    v.push(((x >> 48) & 0xff) as u8);
    v.push(((x >> 40) & 0xff) as u8);
    v.push(((x >> 32) & 0xff) as u8);
    v.push(((x >> 24) & 0xff) as u8);
    v.push(((x >> 16) & 0xff) as u8);
    v.push(((x >> 8) & 0xff) as u8);
    v.push((x & 0xff) as u8);
    proof {
        assert(v@ =~= spec_u64_to_be_bytes(x));
    }
    v
}

/// Reads the `u64` an 8-byte big-endian field denotes.
pub fn u64_from_be_bytes(s: &[u8]) -> (x: u64)
    requires
        s@.len() == 8,
    ensures
        x == spec_u64_from_be_bytes(s@),
{
    let b0 = *slice_index_get(s, 0);
    let b1 = *slice_index_get(s, 1);
    let b2 = *slice_index_get(s, 2);
    let b3 = *slice_index_get(s, 3);
    let b4 = *slice_index_get(s, 4);
    let b5 = *slice_index_get(s, 5);
    let b6 = *slice_index_get(s, 6);
    let b7 = *slice_index_get(s, 7);
    ((b0 as u64) << 56) | ((b1 as u64) << 48) | ((b2 as u64) << 40) | ((b3 as u64) << 32) | ((
    b4 as u64) << 24) | ((b5 as u64) << 16) | ((b6 as u64) << 8) | (b7 as u64)
}

/// Appends every byte of `src` to `dst`, in order.
pub fn push_all(dst: &mut Vec<u8>, src: &[u8])
    ensures
        final(dst)@ == old(dst)@ + src@,
{
    let mut i: usize = 0;
    while i < src.len()
        invariant
            i <= src@.len(),
            dst@ == old(dst)@ + src@.take(i as int),
        decreases src@.len() - i,
    {
        let b = *slice_index_get(src, i);
        dst.push(b);
        proof {
            assert(old(dst)@ + src@.take(i as int) + seq![src@[i as int]] =~= old(dst)@
                + src@.take(i + 1));
        }
        i += 1;
    }
    proof {
        assert(src@.take(src@.len() as int) =~= src@);
    }
}

/// A filename as it stands on the wire: a 4-byte big-endian length
/// followed by that many bytes of the name.
pub open spec fn spec_filename_frame(name: Seq<u8>) -> Seq<u8>
    recommends
        name.len() <= u32::MAX,
{
    spec_u32_to_be_bytes(name.len() as u32) + name
}

/// Encodes a filename as its length-prefixed wire frame.
pub fn encode_filename_frame(name: &[u8]) -> (r: Vec<u8>)
    requires
        name@.len() <= u32::MAX,
    ensures
        r@ == spec_filename_frame(name@),
        r@.len() == 4 + name@.len(),
{
    let mut v = u32_to_be_bytes(name.len() as u32);
    push_all(&mut v, name);
    v
}

/// A complete upload request: command tag, filename frame, then the
/// 8-byte payload size. The payload bytes follow it on the wire.
pub open spec fn spec_upload_request(name: Seq<u8>, size: u64) -> Seq<u8>
    recommends
        name.len() <= u32::MAX,
{
    spec_command_tag(Command::Upload) + spec_filename_frame(name) + spec_u64_to_be_bytes(size)
}

/// Builds the header an uploader sends before the payload bytes.
pub fn build_upload_request(name: &[u8], size: u64) -> (r: Vec<u8>)
    requires
        name@.len() <= u32::MAX,
    ensures
        r@ == spec_upload_request(name@, size),
        r@.len() == 16 + name@.len(),
{
    let mut v = encode_command(Command::Upload);
    let frame = encode_filename_frame(name);
    push_all(&mut v, frame.as_slice());
    let size_field = u64_to_be_bytes(size);
    push_all(&mut v, size_field.as_slice());
    v
}

/// A complete download request: command tag then filename frame.
pub open spec fn spec_download_request(name: Seq<u8>) -> Seq<u8>
    recommends
        name.len() <= u32::MAX,
{
    spec_command_tag(Command::Download) + spec_filename_frame(name)
}

/// Builds the request a downloader sends.
pub fn build_download_request(name: &[u8]) -> (r: Vec<u8>)
    requires
        name@.len() <= u32::MAX,
    ensures
        r@ == spec_download_request(name@),
        r@.len() == 8 + name@.len(),
{
    let mut v = encode_command(Command::Download);
    let frame = encode_filename_frame(name);
    push_all(&mut v, frame.as_slice());
    v
}

/// The bytes a responder sends back to a download request before any
/// payload: on a found file the `"OK"` tag and the 8-byte size, on a
/// missing file the `"ERR"` tag alone.
pub open spec fn spec_get_response_header(found: bool, size: u64) -> Seq<u8> {
    if found {
        spec_status_bytes(GetStatus::Found) + spec_u64_to_be_bytes(size)
    } else {
        spec_status_bytes(GetStatus::Missing)
    }
}

/// Builds the response header for a download request. A missing file is
/// answered with `"ERR"` and nothing else: a normal outcome at the
/// protocol level, never a payload.
pub fn build_get_response_header(found: bool, size: u64) -> (r: Vec<u8>)
    ensures
        r@ == spec_get_response_header(found, size),
        !found ==> r@ == spec_status_bytes(GetStatus::Missing),
{
    if found {
        let mut v = encode_status(GetStatus::Found);
        let size_field = u64_to_be_bytes(size);
        push_all(&mut v, size_field.as_slice());
        v
    } else {
        encode_status(GetStatus::Missing)
    }
}

/// What a downloader concludes from a response header: a missing file
/// is answered with exactly the `"ERR"` tag, whose first two bytes parse
/// as failure — so the client never opens a destination file for it —
/// and a found file is answered with `"OK"` followed by the size field,
/// whose first two bytes parse as success and whose size reads back
/// exactly.
pub proof fn lemma_get_response_decodes(size: u64)
    ensures
        spec_get_response_header(false, size) == spec_status_bytes(GetStatus::Missing),
        spec_parse_status(
            spec_get_response_header(false, size)[0],
            spec_get_response_header(false, size)[1],
        ) == StatusParse::Failed,
        spec_parse_status(
            spec_get_response_header(true, size)[0],
            spec_get_response_header(true, size)[1],
        ) == StatusParse::Succeeded,
        spec_get_response_header(true, size).len() == 10,
        spec_u64_from_be_bytes(spec_get_response_header(true, size).subrange(2, 10)) == size,
{
    let found = spec_get_response_header(true, size);
    lemma_u64_be_bytes_round_trip();
    assert(found.subrange(2, 10) =~= spec_u64_to_be_bytes(size));
}

/// A receiver that splits an upload request at the documented offsets
/// reads back exactly the command, the filename and the declared size
/// that went in.
pub proof fn lemma_upload_request_decodes(name: Seq<u8>, size: u64)
    requires
        name.len() <= u32::MAX,
    ensures
        spec_upload_request(name, size).len() == 16 + name.len(),
        spec_upload_request(name, size).subrange(0, 4) == spec_command_tag(Command::Upload),
        spec_u32_from_be_bytes(spec_upload_request(name, size).subrange(4, 8)) == name.len(),
        spec_upload_request(name, size).subrange(8, 8 + name.len() as int) == name,
        spec_u64_from_be_bytes(
            spec_upload_request(name, size).subrange(
                8 + name.len() as int,
                16 + name.len() as int,
            ),
        ) == size,
{
    let r = spec_upload_request(name, size);
    lemma_u32_be_bytes_round_trip();
    lemma_u64_be_bytes_round_trip();
    assert(r.subrange(0, 4) =~= spec_command_tag(Command::Upload));
    assert(r.subrange(4, 8) =~= spec_u32_to_be_bytes(name.len() as u32));
    assert(r.subrange(8, 8 + name.len() as int) =~= name);
    assert(r.subrange(8 + name.len() as int, 16 + name.len() as int) =~= spec_u64_to_be_bytes(
        size,
    ));
    assert(spec_u32_from_be_bytes(spec_u32_to_be_bytes(name.len() as u32)) == name.len() as u32);
}

/// A receiver that splits a download request at the documented offsets
/// reads back exactly the command and the filename that went in.
pub proof fn lemma_download_request_decodes(name: Seq<u8>)
    requires
        name.len() <= u32::MAX,
    ensures
        spec_download_request(name).len() == 8 + name.len(),
        spec_download_request(name).subrange(0, 4) == spec_command_tag(Command::Download),
        spec_u32_from_be_bytes(spec_download_request(name).subrange(4, 8)) == name.len(),
        spec_download_request(name).subrange(8, 8 + name.len() as int) == name,
{
    let r = spec_download_request(name);
    lemma_u32_be_bytes_round_trip();
    assert(r.subrange(0, 4) =~= spec_command_tag(Command::Download));
    assert(r.subrange(4, 8) =~= spec_u32_to_be_bytes(name.len() as u32));
    assert(r.subrange(8, 8 + name.len() as int) =~= name);
    assert(spec_u32_from_be_bytes(spec_u32_to_be_bytes(name.len() as u32)) == name.len() as u32);
}

} // verus!

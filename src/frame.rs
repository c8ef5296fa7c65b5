//! The binary frame format of the event feed.
//!
//! A frame is a 16-byte header followed by a body:
//! `size: u32 | header_length: u16 | protocol_version: u16 | operation: u32 | sequence: u32`,
//! all big-endian.
use vstd::prelude::*;
use vstd::string::StringSliceAdditionalSpecFns;

verus! {

/// Operation code of a heartbeat sent by the client.
pub const OP_HEARTBEAT: u32 = 2;

/// Operation code of the server's heartbeat acknowledgement.
pub const OP_HEARTBEAT_REPLY: u32 = 3;

/// Operation code of a plain event message.
pub const OP_MESSAGE: u32 = 5;

/// Operation code of the client's authentication request.
pub const OP_AUTH: u32 = 7;

/// Operation code of the server's authentication acknowledgement.
pub const OP_AUTH_REPLY: u32 = 8;

/// Length of the fixed frame header.
pub const HEADER_LEN: u16 = 16;

/// The four big-endian bytes of `n`.
pub open spec fn be_u32_bytes(n: nat) -> Seq<u8> {
    seq![
        (n / 0x100_0000 % 0x100) as u8,
        (n / 0x1_0000 % 0x100) as u8,
        (n / 0x100 % 0x100) as u8,
        (n % 0x100) as u8,
    ]
}

/// The two big-endian bytes of `n`.
pub open spec fn be_u16_bytes(n: nat) -> Seq<u8> {
    seq![(n / 0x100 % 0x100) as u8, (n % 0x100) as u8]
}

/// A frame with header length 16, the given protocol version and operation,
/// sequence 1, and `body` after the header.
pub open spec fn frame_of(version: u16, op: u32, body: Seq<u8>) -> Seq<u8> {
    be_u32_bytes((16 + body.len()) as nat) + be_u16_bytes(16) + be_u16_bytes(version as nat)
        + be_u32_bytes(op as nat) + be_u32_bytes(1) + body
}

/// The frame that the client sends: protocol version 1 (plain) around `body`.
pub open spec fn frame_bytes(op: u32, body: Seq<u8>) -> Seq<u8> {
    frame_of(1, op, body)
}

fn push_u32(buf: &mut Vec<u8>, n: u32)
    ensures
        final(buf)@ == old(buf)@ + be_u32_bytes(n as nat),
{
    buf.push((n / 0x100_0000 % 0x100) as u8);
    buf.push((n / 0x1_0000 % 0x100) as u8);
    buf.push((n / 0x100 % 0x100) as u8);
    buf.push((n % 0x100) as u8);
    assert(final(buf)@ =~= old(buf)@ + be_u32_bytes(n as nat));
}

fn push_u16(buf: &mut Vec<u8>, n: u16)
    ensures
        final(buf)@ == old(buf)@ + be_u16_bytes(n as nat),
{
    buf.push((n / 0x100 % 0x100) as u8);
    buf.push((n % 0x100) as u8);
    assert(final(buf)@ =~= old(buf)@ + be_u16_bytes(n as nat));
}

/// Builds a client frame with operation `op_code` around `data`.
pub fn encode_bytes(data: &[u8], op_code: u32) -> (r: Vec<u8>)
    requires
        data@.len() + 16 <= u32::MAX,
    ensures
        r@ == frame_bytes(op_code, data@),
{
    let size = (data.len() + 16) as u32;
    let mut buf: Vec<u8> = Vec::with_capacity(data.len() + 16);
    push_u32(&mut buf, size);
    push_u16(&mut buf, HEADER_LEN);
    push_u16(&mut buf, 1);
    push_u32(&mut buf, op_code);
    push_u32(&mut buf, 1);
    let ghost head = buf@;
    let mut i: usize = 0;
    while i < data.len()
        invariant
            i <= data@.len(),
            buf@ == head + data@.subrange(0, i as int),
        decreases data@.len() - i,
    {
        buf.push(data[i]);
        i += 1;
        assert(buf@ =~= head + data@.subrange(0, i as int));
    }
    assert(data@.subrange(0, data@.len() as int) =~= data@);
    assert(buf@ =~= frame_bytes(op_code, data@));
    buf
}

/// Builds a client frame with operation `op_code` around the UTF-8 bytes of `data`.
pub fn encode_str(data: &str, op_code: u32) -> (r: Vec<u8>)
    requires
        data.spec_bytes().len() + 16 <= u32::MAX,
    ensures
        r@ == frame_bytes(op_code, data.spec_bytes()),
{
    encode_bytes(data.as_bytes(), op_code)
}


/// What a decoded frame carries.
#[derive(Debug, Clone, Copy, PartialEq, Eq, Structural)]
pub enum ReplyKind {
    Heartbeat,
    Message,
    Auth,
}

/// A reply decoded from the feed, with its body.
#[derive(Debug, Clone, PartialEq)]
pub enum SubReply {
    Heartbeat(Vec<u8>),
    Message(Vec<u8>),
    Auth(Vec<u8>),
}

impl View for SubReply {
    type V = (ReplyKind, Seq<u8>);

    open spec fn view(&self) -> (ReplyKind, Seq<u8>) {
        match self {
            SubReply::Heartbeat(b) => (ReplyKind::Heartbeat, b@),
            SubReply::Message(b) => (ReplyKind::Message, b@),
            SubReply::Auth(b) => (ReplyKind::Auth, b@),
        }
    }
}

/// Why a buffer could not be decoded.
#[derive(Debug, Clone, Copy, PartialEq, Eq, Structural)]
pub enum DecodeError {
    /// Fewer than 6 bytes where a frame starts.
    Length,
    /// A header length under 16, or fewer than 16 bytes where a frame starts.
    Header,
    /// The frame's size does not fit its header length or the bytes left.
    Body,
    /// A compressed body is not a valid gzip or brotli stream.
    Decompress,
    /// Compressed frames are nested deeper than the decoder follows.
    Nesting,
}

/// How many levels of compressed frames [`decode`] follows.
pub const MAX_NESTING: u64 = 8;

/// The big-endian `u32` at `s[i..i + 4]`.
pub open spec fn be_u32_at(s: Seq<u8>, i: int) -> nat {
    (s[i] as nat) * 0x100_0000 + (s[i + 1] as nat) * 0x1_0000 + (s[i + 2] as nat) * 0x100 + (s[i
        + 3] as nat)
}

/// The big-endian `u16` at `s[i..i + 2]`.
pub open spec fn be_u16_at(s: Seq<u8>, i: int) -> nat {
    (s[i] as nat) * 0x100 + (s[i + 1] as nat)
}

/// The `size` field of the frame at the start of `buf`.
pub open spec fn frame_size(buf: Seq<u8>) -> nat {
    be_u32_at(buf, 0)
}

/// The `header_length` field of the frame at the start of `buf`.
pub open spec fn frame_header_len(buf: Seq<u8>) -> nat {
    be_u16_at(buf, 4)
}

/// The `protocol_version` field of the frame at the start of `buf`.
pub open spec fn frame_version(buf: Seq<u8>) -> nat {
    be_u16_at(buf, 6)
}

/// The `operation` field of the frame at the start of `buf`.
pub open spec fn frame_op(buf: Seq<u8>) -> nat {
    be_u32_at(buf, 8)
}

/// The error, if any, in the header of the frame at the start of a non-empty `buf`.
pub open spec fn frame_error(buf: Seq<u8>) -> Option<DecodeError> {
    if buf.len() < 6 {
        Some(DecodeError::Length)
    } else if frame_header_len(buf) < 16 || buf.len() < 16 {
        Some(DecodeError::Header)
    } else if frame_size(buf) + 16 < 2 * frame_header_len(buf) || buf.len() - 16 < frame_size(buf)
        - frame_header_len(buf) {
        Some(DecodeError::Body)
    } else {
        None
    }
}

/// Where the frame at the start of `buf` ends: the body is read relative to the
/// end of the 16 fixed header bytes, from `header_length - 16` up to `size - header_length`.
pub open spec fn frame_end(buf: Seq<u8>) -> int {
    16 + frame_size(buf) - frame_header_len(buf)
}

/// The body of the frame at the start of `buf`.
pub open spec fn frame_body(buf: Seq<u8>) -> Seq<u8> {
    buf.subrange(frame_header_len(buf) as int, frame_end(buf))
}

/// What gzip decompression of `b` gives, or `None` where `b` is no valid gzip stream.
pub uninterp spec fn gzip_inflated(b: Seq<u8>) -> Option<Seq<u8>>;

/// What brotli decompression of `b` gives, or `None` where `b` is no valid brotli stream.
pub uninterp spec fn brotli_inflated(b: Seq<u8>) -> Option<Seq<u8>>;

/// `a` followed by the replies of `r`, or the error of `r`.
pub open spec fn prepend_replies(
    a: Seq<(ReplyKind, Seq<u8>)>,
    r: Result<Seq<(ReplyKind, Seq<u8>)>, DecodeError>,
) -> Result<Seq<(ReplyKind, Seq<u8>)>, DecodeError> {
    match r {
        Ok(b) => Ok(a + b),
        Err(e) => Err(e),
    }
}

/// The replies that one frame gives, from its body, protocol version and
/// operation, following compressed frames `depth` levels deep.
///
/// An operation of 3 or 8 gives a heartbeat or auth reply; version 0 with
/// operation 5 a message; versions 2 and 3 hold a gzip or brotli stream of
/// further frames; any other frame gives nothing.
pub open spec fn frame_replies(body: Seq<u8>, version: nat, op: nat, depth: nat) -> Result<
    Seq<(ReplyKind, Seq<u8>)>,
    DecodeError,
>
    decreases depth, 0nat, 0nat,
{
    if op == 3 {
        Ok(seq![(ReplyKind::Heartbeat, body)])
    } else if op == 8 {
        Ok(seq![(ReplyKind::Auth, body)])
    } else if version == 0 && op == 5 {
        Ok(seq![(ReplyKind::Message, body)])
    } else if version == 2 || version == 3 {
        if depth == 0 {
            Err(DecodeError::Nesting)
        } else {
            let inflated = if version == 2 {
                gzip_inflated(body)
            } else {
                brotli_inflated(body)
            };
            match inflated {
                Some(inner) => decode_spec(inner, (depth - 1) as nat),
                None => Err(DecodeError::Decompress),
            }
        }
    } else {
        Ok(seq![])
    }
}

/// The replies that `buf` decodes to, frame after frame, following compressed
/// frames `depth` levels deep.
pub open spec fn decode_spec(buf: Seq<u8>, depth: nat) -> Result<
    Seq<(ReplyKind, Seq<u8>)>,
    DecodeError,
>
    decreases depth, 1nat, buf.len(),
{
    if buf.len() == 0 {
        Ok(seq![])
    } else {
        match frame_error(buf) {
            Some(e) => Err(e),
            None => match frame_replies(
                frame_body(buf),
                frame_version(buf),
                frame_op(buf),
                depth,
            ) {
                Ok(a) => prepend_replies(
                    a,
                    decode_spec(buf.subrange(frame_end(buf), buf.len() as int), depth),
                ),
                Err(e) => Err(e),
            },
        }
    }
}

/// The views of `v`.
pub open spec fn replies_view(v: Seq<SubReply>) -> Seq<(ReplyKind, Seq<u8>)> {
    v.map_values(|r: SubReply| r@)
}

/// The view of a decoder's result.
pub open spec fn decoded_view(r: Result<Vec<SubReply>, DecodeError>) -> Result<
    Seq<(ReplyKind, Seq<u8>)>,
    DecodeError,
> {
    match r {
        Ok(v) => Ok(replies_view(v@)),
        Err(e) => Err(e),
    }
}

/// The view of an optional byte buffer.
pub open spec fn bytes_view(r: Option<Vec<u8>>) -> Option<Seq<u8>> {
    match r {
        Some(v) => Some(v@),
        None => None,
    }
}

/// Relies on flate2's `GzDecoder`, read to its end: the output depends on the input alone.
#[verifier::external_body]
fn gunzip(body: &[u8]) -> (r: Option<Vec<u8>>)
    ensures
        bytes_view(r) == gzip_inflated(body@),
{
    let mut decoder = flate2::read::GzDecoder::new(body);
    let mut out = Vec::new();
    match std::io::copy(&mut decoder, &mut out) {
        Ok(_) => Some(out),
        Err(_) => None,
    }
}

/// Relies on brotli's `Decompressor`, read to its end: the output depends on the input alone.
#[verifier::external_body]
fn unbrotli(body: &[u8]) -> (r: Option<Vec<u8>>)
    ensures
        bytes_view(r) == brotli_inflated(body@),
{
    let mut decompressor = brotli::Decompressor::new(body, 4096);
    let mut out = Vec::new();
    match std::io::copy(&mut decompressor, &mut out) {
        Ok(_) => Some(out),
        Err(_) => None,
    }
}

fn read_u32(buf: &[u8], i: usize) -> (r: u32)
    requires
        i + 4 <= buf@.len(),
    ensures
        r as nat == be_u32_at(buf@, i as int),
{
    (buf[i] as u32) * 0x100_0000 + (buf[i + 1] as u32) * 0x1_0000 + (buf[i + 2] as u32) * 0x100 + (
    buf[i + 3] as u32)
}

fn read_u16(buf: &[u8], i: usize) -> (r: u16)
    requires
        i + 2 <= buf@.len(),
    ensures
        r as nat == be_u16_at(buf@, i as int),
{
    (buf[i] as u16) * 0x100 + (buf[i + 1] as u16)
}

pub(crate) proof fn lemma_prepend_assoc(
    a: Seq<(ReplyKind, Seq<u8>)>,
    b: Seq<(ReplyKind, Seq<u8>)>,
    r: Result<Seq<(ReplyKind, Seq<u8>)>, DecodeError>,
)
    ensures
        prepend_replies(a, prepend_replies(b, r)) == prepend_replies(a + b, r),
{
    if let Ok(c) = r {
        assert(a + (b + c) =~= (a + b) + c);
    }
}

proof fn lemma_replies_view_append(v: Seq<SubReply>, w: Seq<SubReply>)
    ensures
        replies_view(v + w) == replies_view(v) + replies_view(w),
{
    assert(replies_view(v + w) =~= replies_view(v) + replies_view(w));
}

fn decode_frame(body: Vec<u8>, version: u16, op: u32, depth: u64) -> (r: Result<
    Vec<SubReply>,
    DecodeError,
>)
    ensures
        decoded_view(r) == frame_replies(body@, version as nat, op as nat, depth as nat),
    decreases depth, 0nat,
{
    if op == OP_HEARTBEAT_REPLY {
        let r = vec![SubReply::Heartbeat(body)];
        assert(replies_view(r@) =~= seq![r@[0]@]);
        Ok(r)
    } else if op == OP_AUTH_REPLY {
        let r = vec![SubReply::Auth(body)];
        assert(replies_view(r@) =~= seq![r@[0]@]);
        Ok(r)
    } else if version == 0 && op == OP_MESSAGE {
        let r = vec![SubReply::Message(body)];
        assert(replies_view(r@) =~= seq![r@[0]@]);
        Ok(r)
    } else if version == 2 || version == 3 {
        if depth == 0 {
            return Err(DecodeError::Nesting);
        }
        let inflated = if version == 2 {
            gunzip(body.as_slice())
        } else {
            unbrotli(body.as_slice())
        };
        match inflated {
            None => Err(DecodeError::Decompress),
            Some(inner) => decode_at(inner.as_slice(), depth - 1),
        }
    } else {
        let r: Vec<SubReply> = Vec::new();
        assert(replies_view(r@) =~= Seq::empty());
        Ok(r)
    }
}

fn decode_at(buf: &[u8], depth: u64) -> (r: Result<Vec<SubReply>, DecodeError>)
    ensures
        decoded_view(r) == decode_spec(buf@, depth as nat),
    decreases depth, 1nat,
{
    let mut out: Vec<SubReply> = Vec::new();
    let mut pos: usize = 0;
    proof {
        assert(buf@.subrange(0, buf@.len() as int) =~= buf@);
        if let Ok(b) = decode_spec(buf@, depth as nat) {
            assert(replies_view(out@) + b =~= b);
        }
    }
    while pos < buf.len()
        invariant
            pos <= buf@.len(),
            prepend_replies(
                replies_view(out@),
                decode_spec(buf@.subrange(pos as int, buf@.len() as int), depth as nat),
            ) == decode_spec(buf@, depth as nat),
        decreases buf@.len() - pos,
    {
        let ghost s = buf@.subrange(pos as int, buf@.len() as int);
        let left = buf.len() - pos;
        if left < 6 {
            return Err(DecodeError::Length);
        }
        let size = read_u32(buf, pos) as u64;
        let header_len = read_u16(buf, pos + 4) as u64;
        assert(size == frame_size(s) && header_len == frame_header_len(s));
        if header_len < 16 || left < 16 {
            return Err(DecodeError::Header);
        }
        if size + 16 < 2 * header_len || (left as u64) - 16 < size - header_len {
            return Err(DecodeError::Body);
        }
        let version = read_u16(buf, pos + 6);
        let op = read_u32(buf, pos + 8);
        assert(version == frame_version(s) && op == frame_op(s));
        let start = pos + header_len as usize;
        let end = pos + 16 + (size - header_len) as usize;
        let body = vstd::slice::slice_to_vec(vstd::slice::slice_subrange(buf, start, end));
        assert(body@ =~= frame_body(s));
        let mut replies = match decode_frame(body, version, op, depth) {
            Ok(v) => v,
            Err(e) => {
                return Err(e);
            },
        };
        let ghost before = out@;
        let ghost added = replies@;
        out.append(&mut replies);
        proof {
            let next = buf@.subrange(end as int, buf@.len() as int);
            assert(s.subrange(frame_end(s), s.len() as int) =~= next);
            lemma_replies_view_append(before, added);
            lemma_prepend_assoc(
                replies_view(before),
                replies_view(added),
                decode_spec(next, depth as nat),
            );
        }
        pos = end;
    }
    proof {
        assert(buf@.subrange(pos as int, buf@.len() as int) =~= Seq::<u8>::empty());
        assert(replies_view(out@) + Seq::empty() =~= replies_view(out@));
    }
    Ok(out)
}

/// Decodes every frame of `data`, in order, expanding compressed frames into the
/// frames that they hold.
pub fn decode(data: Vec<u8>) -> (r: Result<Vec<SubReply>, DecodeError>)
    ensures
        decoded_view(r) == decode_spec(data@, MAX_NESTING as nat),
{
    decode_at(data.as_slice(), MAX_NESTING)
}

} // verus!

//! Laws of the frame codec: what decoding gives for frames built by the codec.
use vstd::prelude::*;
use crate::frame::{
    be_u16_at, be_u16_bytes, be_u32_at, be_u32_bytes, decode_spec, frame_body, frame_end,
    frame_error, frame_header_len, frame_of, frame_op, frame_replies, frame_size, frame_version,
    frame_bytes, gzip_inflated, brotli_inflated, lemma_prepend_assoc, prepend_replies,
    DecodeError, ReplyKind, MAX_NESTING,
};

verus! {

proof fn lemma_be_u32(n: nat)
    requires
        n <= u32::MAX,
    ensures
        be_u32_at(be_u32_bytes(n), 0) == n,
{
    let b = be_u32_bytes(n);
    let q1 = n / 0x100;
    let q2 = q1 / 0x100;
    let q3 = q2 / 0x100;
    vstd::arithmetic::div_mod::lemma_fundamental_div_mod(n as int, 0x100);
    vstd::arithmetic::div_mod::lemma_fundamental_div_mod(q1 as int, 0x100);
    vstd::arithmetic::div_mod::lemma_fundamental_div_mod(q2 as int, 0x100);
    assert(n / 0x1_0000 == q2) by {
        vstd::arithmetic::div_mod::lemma_div_denominator(n as int, 0x100, 0x100);
    }
    assert(n / 0x100_0000 == q3) by {
        vstd::arithmetic::div_mod::lemma_div_denominator(n as int, 0x1_0000, 0x100);
    }
    assert(q3 < 0x100) by {
        vstd::arithmetic::div_mod::lemma_multiply_divide_lt(n as int, 0x100_0000, 0x100);
    }
    assert(b[0] as nat == q3);
    assert(b[1] as nat == q2 % 0x100);
    assert(b[2] as nat == q1 % 0x100);
    assert(b[3] as nat == n % 0x100);
}

proof fn lemma_be_u16(n: nat)
    requires
        n <= u16::MAX,
    ensures
        be_u16_at(be_u16_bytes(n), 0) == n,
{
    vstd::arithmetic::div_mod::lemma_fundamental_div_mod(n as int, 0x100);
    vstd::arithmetic::div_mod::lemma_multiply_divide_lt(n as int, 0x100, 0x100);
}


proof fn lemma_be_u32_in(s: Seq<u8>, i: int, n: nat)
    requires
        0 <= i,
        i + 4 <= s.len(),
        n <= u32::MAX,
        s.subrange(i, i + 4) == be_u32_bytes(n),
    ensures
        be_u32_at(s, i) == n,
{
    lemma_be_u32(n);
    let t = s.subrange(i, i + 4);
    assert(s[i] == t[0] && s[i + 1] == t[1] && s[i + 2] == t[2] && s[i + 3] == t[3]);
}

proof fn lemma_be_u16_in(s: Seq<u8>, i: int, n: nat)
    requires
        0 <= i,
        i + 2 <= s.len(),
        n <= u16::MAX,
        s.subrange(i, i + 2) == be_u16_bytes(n),
    ensures
        be_u16_at(s, i) == n,
{
    lemma_be_u16(n);
    let t = s.subrange(i, i + 2);
    assert(s[i] == t[0] && s[i + 1] == t[1]);
}

/// The header fields of any buffer that starts with the first `k >= 6` bytes of
/// a built frame.
proof fn lemma_header_fields(version: u16, op: u32, body: Seq<u8>, buf: Seq<u8>, k: int)
    requires
        body.len() + 16 <= u32::MAX,
        6 <= k <= buf.len(),
        k <= frame_of(version, op, body).len(),
        buf.subrange(0, k) == frame_of(version, op, body).subrange(0, k),
    ensures
        frame_size(buf) == 16 + body.len(),
        frame_header_len(buf) == 16,
        k >= 16 ==> frame_version(buf) == version as nat && frame_op(buf) == op as nat,
{
    let f = frame_of(version, op, body);
    let size = (16 + body.len()) as nat;
    assert(buf.subrange(0, 4) =~= f.subrange(0, k).subrange(0, 4));
    assert(buf.subrange(0, 4) =~= be_u32_bytes(size));
    lemma_be_u32_in(buf, 0, size);
    assert(buf.subrange(4, 6) =~= f.subrange(0, k).subrange(4, 6));
    assert(buf.subrange(4, 6) =~= be_u16_bytes(16));
    lemma_be_u16_in(buf, 4, 16);
    if k >= 16 {
        assert(buf.subrange(6, 8) =~= f.subrange(0, k).subrange(6, 8));
        assert(buf.subrange(6, 8) =~= be_u16_bytes(version as nat));
        lemma_be_u16_in(buf, 6, version as nat);
        assert(buf.subrange(8, 12) =~= f.subrange(0, k).subrange(8, 12));
        assert(buf.subrange(8, 12) =~= be_u32_bytes(op as nat));
        lemma_be_u32_in(buf, 8, op as nat);
    }
}

/// A frame built with header length 16, followed by any bytes, decodes to that
/// frame's replies followed by what the rest decodes to.
pub proof fn lemma_frame_then_rest(
    version: u16,
    op: u32,
    body: Seq<u8>,
    rest: Seq<u8>,
    depth: nat,
)
    requires
        body.len() + 16 <= u32::MAX,
    ensures
        decode_spec(frame_of(version, op, body) + rest, depth) == match frame_replies(
            body,
            version as nat,
            op as nat,
            depth,
        ) {
            Ok(a) => prepend_replies(a, decode_spec(rest, depth)),
            Err(e) => Err(e),
        },
{
    let f = frame_of(version, op, body);
    let buf = f + rest;
    assert(f.len() == 16 + body.len());
    assert(buf.subrange(0, f.len() as int) =~= f.subrange(0, f.len() as int));
    lemma_header_fields(version, op, body, buf, f.len() as int);
    assert(frame_error(buf) is None);
    assert(frame_end(buf) == f.len());
    assert(frame_body(buf) =~= body);
    assert(buf.subrange(frame_end(buf), buf.len() as int) =~= rest);
}

/// A heartbeat or auth acknowledgement built by the codec decodes to exactly
/// one reply of that kind, with the same body.
pub proof fn lemma_round_trip(op: u32, body: Seq<u8>)
    requires
        op == 3 || op == 8,
        body.len() + 16 <= u32::MAX,
    ensures
        decode_spec(frame_bytes(op, body), MAX_NESTING as nat) == Ok::<
            Seq<(ReplyKind, Seq<u8>)>,
            DecodeError,
        >(seq![(reply_kind_of_op(op), body)]),
{
    let f = frame_bytes(op, body);
    lemma_frame_then_rest(1, op, body, seq![], MAX_NESTING as nat);
    assert(f + seq![] =~= f);
    assert(seq![(reply_kind_of_op(op), body)] + Seq::<(ReplyKind, Seq<u8>)>::empty() =~= seq![
        (reply_kind_of_op(op), body),
    ]);
}

/// A plain message frame (protocol version 0, operation 5) decodes to exactly
/// one message reply with the same body.
pub proof fn lemma_message_round_trip(body: Seq<u8>, depth: nat)
    requires
        body.len() + 16 <= u32::MAX,
    ensures
        decode_spec(frame_of(0, 5, body), depth) == Ok::<
            Seq<(ReplyKind, Seq<u8>)>,
            DecodeError,
        >(seq![(ReplyKind::Message, body)]),
{
    let f = frame_of(0, 5, body);
    lemma_frame_then_rest(0, 5, body, seq![], depth);
    assert(f + seq![] =~= f);
    assert(seq![(ReplyKind::Message, body)] + Seq::<(ReplyKind, Seq<u8>)>::empty() =~= seq![
        (ReplyKind::Message, body),
    ]);
}

/// The kind of reply that an acknowledgement operation gives: 3 a heartbeat, else auth.
pub open spec fn reply_kind_of_op(op: u32) -> ReplyKind {
    if op == 3 {
        ReplyKind::Heartbeat
    } else {
        ReplyKind::Auth
    }
}

/// The client frames for `(operation, body)` pairs, one after another.
pub open spec fn client_frames(frames: Seq<(u32, Seq<u8>)>) -> Seq<u8>
    decreases frames.len(),
{
    if frames.len() == 0 {
        seq![]
    } else {
        frame_bytes(frames[0].0, frames[0].1) + client_frames(frames.drop_first())
    }
}

/// Heartbeat and auth acknowledgements built one after another in one buffer
/// decode to one reply each, in the order of the frames.
#[verifier::rlimit(40)]
pub proof fn lemma_frames_in_order(frames: Seq<(u32, Seq<u8>)>)
    requires
        forall|i: int|
            0 <= i < frames.len() ==> (#[trigger] frames[i]).0 == 3 || frames[i].0 == 8,
        forall|i: int| 0 <= i < frames.len() ==> (#[trigger] frames[i]).1.len() + 16 <= u32::MAX,
    ensures
        decode_spec(client_frames(frames), MAX_NESTING as nat) == Ok::<
            Seq<(ReplyKind, Seq<u8>)>,
            DecodeError,
        >(frames.map_values(|f: (u32, Seq<u8>)| (reply_kind_of_op(f.0), f.1))),
    decreases frames.len(),
{
    let replies = frames.map_values(|f: (u32, Seq<u8>)| (reply_kind_of_op(f.0), f.1));
    if frames.len() == 0 {
        assert(replies =~= Seq::empty());
    } else {
        let tail = frames.drop_first();
        assert forall|i: int| 0 <= i < tail.len() implies (#[trigger] tail[i]).0 == 3 || tail[i].0
            == 8 by {
            assert(tail[i] == frames[i + 1]);
        }
        assert forall|i: int| 0 <= i < tail.len() implies (#[trigger] tail[i]).1.len() + 16
            <= u32::MAX by {
            assert(tail[i] == frames[i + 1]);
        }
        lemma_frames_in_order(tail);
        lemma_frame_then_rest(1, frames[0].0, frames[0].1, client_frames(tail), MAX_NESTING as nat);
        assert(seq![(reply_kind_of_op(frames[0].0), frames[0].1)] + tail.map_values(
            |f: (u32, Seq<u8>)| (reply_kind_of_op(f.0), f.1),
        ) =~= replies);
    }
}

/// Plain message frames (protocol version 0, operation 5) for `bodies`, one after another.
pub open spec fn message_frames(bodies: Seq<Seq<u8>>) -> Seq<u8>
    decreases bodies.len(),
{
    if bodies.len() == 0 {
        seq![]
    } else {
        frame_of(0, 5, bodies[0]) + message_frames(bodies.drop_first())
    }
}

/// Message replies for `bodies`, in order.
pub open spec fn message_replies(bodies: Seq<Seq<u8>>) -> Seq<(ReplyKind, Seq<u8>)> {
    bodies.map_values(|b: Seq<u8>| (ReplyKind::Message, b))
}

/// Plain message frames one after another decode to one message each, in order.
pub proof fn lemma_messages_in_order(bodies: Seq<Seq<u8>>, depth: nat)
    requires
        forall|i: int| 0 <= i < bodies.len() ==> (#[trigger] bodies[i]).len() + 16 <= u32::MAX,
    ensures
        decode_spec(message_frames(bodies), depth) == Ok::<
            Seq<(ReplyKind, Seq<u8>)>,
            DecodeError,
        >(message_replies(bodies)),
    decreases bodies.len(),
{
    if bodies.len() == 0 {
        assert(message_replies(bodies) =~= Seq::empty());
    } else {
        let tail = bodies.drop_first();
        assert forall|i: int| 0 <= i < tail.len() implies (#[trigger] tail[i]).len() + 16
            <= u32::MAX by {
            assert(tail[i] == bodies[i + 1]);
        }
        lemma_messages_in_order(tail, depth);
        lemma_frame_then_rest(0, 5, bodies[0], message_frames(tail), depth);
        assert(seq![(ReplyKind::Message, bodies[0])] + message_replies(tail) =~= message_replies(
            bodies,
        ));
    }
}

/// A gzip frame (protocol version 2) whose body inflates to plain message
/// frames decodes to those messages, in order.
pub proof fn lemma_gzip_messages(op: u32, body: Seq<u8>, bodies: Seq<Seq<u8>>)
    requires
        op != 3 && op != 8,
        body.len() + 16 <= u32::MAX,
        forall|i: int| 0 <= i < bodies.len() ==> (#[trigger] bodies[i]).len() + 16 <= u32::MAX,
        gzip_inflated(body) == Some(message_frames(bodies)),
    ensures
        decode_spec(frame_of(2, op, body), MAX_NESTING as nat) == Ok::<
            Seq<(ReplyKind, Seq<u8>)>,
            DecodeError,
        >(message_replies(bodies)),
{
    let f = frame_of(2, op, body);
    lemma_messages_in_order(bodies, (MAX_NESTING - 1) as nat);
    lemma_frame_then_rest(2, op, body, seq![], MAX_NESTING as nat);
    assert(f + seq![] =~= f);
    assert(message_replies(bodies) + Seq::<(ReplyKind, Seq<u8>)>::empty() =~= message_replies(
        bodies,
    ));
}

/// A brotli frame (protocol version 3) whose body inflates to plain message
/// frames decodes to those messages, in order.
pub proof fn lemma_brotli_messages(op: u32, body: Seq<u8>, bodies: Seq<Seq<u8>>)
    requires
        op != 3 && op != 8,
        body.len() + 16 <= u32::MAX,
        forall|i: int| 0 <= i < bodies.len() ==> (#[trigger] bodies[i]).len() + 16 <= u32::MAX,
        brotli_inflated(body) == Some(message_frames(bodies)),
    ensures
        decode_spec(frame_of(3, op, body), MAX_NESTING as nat) == Ok::<
            Seq<(ReplyKind, Seq<u8>)>,
            DecodeError,
        >(message_replies(bodies)),
{
    let f = frame_of(3, op, body);
    lemma_messages_in_order(bodies, (MAX_NESTING - 1) as nat);
    lemma_frame_then_rest(3, op, body, seq![], MAX_NESTING as nat);
    assert(f + seq![] =~= f);
    assert(message_replies(bodies) + Seq::<(ReplyKind, Seq<u8>)>::empty() =~= message_replies(
        bodies,
    ));
}

/// A frame with an operation and protocol version that carry nothing decodes
/// to no reply and no error.
pub proof fn lemma_unknown_frame(version: u16, op: u32, body: Seq<u8>, depth: nat)
    requires
        op != 3 && op != 8,
        !(version == 0 && op == 5),
        version != 2 && version != 3,
        body.len() + 16 <= u32::MAX,
    ensures
        decode_spec(frame_of(version, op, body), depth) == Ok::<
            Seq<(ReplyKind, Seq<u8>)>,
            DecodeError,
        >(seq![]),
{
    let f = frame_of(version, op, body);
    lemma_frame_then_rest(version, op, body, seq![], depth);
    assert(f + seq![] =~= f);
    assert(Seq::<(ReplyKind, Seq<u8>)>::empty() + Seq::<(ReplyKind, Seq<u8>)>::empty()
        =~= Seq::<(ReplyKind, Seq<u8>)>::empty());
}

/// Every proper, non-empty prefix of a built frame fails to decode with a
/// length, header or body error.
pub proof fn lemma_truncated_frame(version: u16, op: u32, body: Seq<u8>, k: int, depth: nat)
    requires
        body.len() + 16 <= u32::MAX,
        1 <= k < frame_of(version, op, body).len(),
    ensures
        decode_spec(frame_of(version, op, body).take(k), depth) == Err::<
            Seq<(ReplyKind, Seq<u8>)>,
            DecodeError,
        >(
            if k < 6 {
                DecodeError::Length
            } else if k < 16 {
                DecodeError::Header
            } else {
                DecodeError::Body
            },
        ),
{
    let f = frame_of(version, op, body);
    let t = f.take(k);
    if k >= 6 {
        assert(t.subrange(0, k) =~= f.subrange(0, k));
        lemma_header_fields(version, op, body, t, k);
    }
}


/// Where `a` decodes without error, `a` followed by `b` decodes to the replies
/// of `a` followed by what `b` decodes to.
pub proof fn lemma_decode_concat(a: Seq<u8>, b: Seq<u8>, depth: nat)
    requires
        decode_spec(a, depth) is Ok,
    ensures
        decode_spec(a + b, depth) == prepend_replies(decode_spec(a, depth)->Ok_0, decode_spec(b, depth)),
    decreases a.len(),
{
    let ab = a + b;
    if a.len() == 0 {
        assert(ab =~= b);
        if let Ok(y) = decode_spec(b, depth) {
            assert(Seq::<(ReplyKind, Seq<u8>)>::empty() + y =~= y);
        }
    } else {
        assert(frame_error(a) is None);
        assert(ab[0] == a[0] && ab[1] == a[1] && ab[2] == a[2] && ab[3] == a[3]);
        assert(ab[4] == a[4] && ab[5] == a[5] && ab[6] == a[6] && ab[7] == a[7]);
        assert(ab[8] == a[8] && ab[9] == a[9] && ab[10] == a[10] && ab[11] == a[11]);
        assert(frame_error(ab) is None);
        let end = frame_end(a);
        assert(frame_body(ab) =~= frame_body(a));
        let rest = a.subrange(end, a.len() as int);
        assert(ab.subrange(frame_end(ab), ab.len() as int) =~= rest + b);
        let x = frame_replies(frame_body(a), frame_version(a), frame_op(a), depth)->Ok_0;
        lemma_decode_concat(rest, b, depth);
        lemma_prepend_assoc(x, decode_spec(rest, depth)->Ok_0, decode_spec(b, depth));
    }
}

} // verus!

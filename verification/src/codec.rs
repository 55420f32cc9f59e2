//! Wire codec for the control channel.
//!
//! Every protocol message travels as a self-delimiting frame: a four-byte
//! big-endian length prefix followed by a tagged body (one tag byte, then the
//! variant's fields in fixed big-endian layout; the error reason fills the
//! rest of the body). The decoder never commits to a partial frame and
//! rejects any declared body length above [`MAX_BODY_LEN`], so a hostile or
//! buggy peer cannot force unbounded buffering.

use vstd::prelude::*;

verus! {

/// Largest body (tag byte plus payload) a peer may declare; longer frames
/// are malformed.
pub const MAX_BODY_LEN: usize = 1024;

/// Length in bytes of an authentication tag (the output of the keyed hash).
pub const TAG_LEN: usize = 32;

pub const TAG_HELLO: u8 = 1;
pub const TAG_HELLO_ACK: u8 = 2;
pub const TAG_CHALLENGE: u8 = 3;
pub const TAG_AUTHENTICATE: u8 = 4;
pub const TAG_HEARTBEAT: u8 = 5;
pub const TAG_CONNECT: u8 = 6;
pub const TAG_ACCEPT: u8 = 7;
pub const TAG_ERROR: u8 = 8;

// ---------------------------------------------------------------------------
// Big-endian integer fields
// ---------------------------------------------------------------------------

pub open spec fn u16_bytes(x: u16) -> Seq<u8> {
    seq![
        ((x >> 8u16) & 0xff) as u8,
        (x & 0xff) as u8,
    ]
}

pub open spec fn u16_of_bytes(b: Seq<u8>) -> u16
    recommends b.len() == 2,
{
    ((b[0] as u16) << 8u16) | (b[1] as u16)
}

pub open spec fn u32_bytes(x: u32) -> Seq<u8> {
    seq![
        ((x >> 24u32) & 0xff) as u8,
        ((x >> 16u32) & 0xff) as u8,
        ((x >> 8u32) & 0xff) as u8,
        (x & 0xff) as u8,
    ]
}

pub open spec fn u32_of_bytes(b: Seq<u8>) -> u32
    recommends b.len() == 4,
{
    ((b[0] as u32) << 24u32) | ((b[1] as u32) << 16u32) | ((b[2] as u32) << 8u32)
        | (b[3] as u32)
}

pub open spec fn u128_bytes(x: u128) -> Seq<u8> {
    seq![
        ((x >> 120u128) & 0xff) as u8,
        ((x >> 112u128) & 0xff) as u8,
        ((x >> 104u128) & 0xff) as u8,
        ((x >> 96u128) & 0xff) as u8,
        ((x >> 88u128) & 0xff) as u8,
        ((x >> 80u128) & 0xff) as u8,
        ((x >> 72u128) & 0xff) as u8,
        ((x >> 64u128) & 0xff) as u8,
        ((x >> 56u128) & 0xff) as u8,
        ((x >> 48u128) & 0xff) as u8,
        ((x >> 40u128) & 0xff) as u8,
        ((x >> 32u128) & 0xff) as u8,
        ((x >> 24u128) & 0xff) as u8,
        ((x >> 16u128) & 0xff) as u8,
        ((x >> 8u128) & 0xff) as u8,
        (x & 0xff) as u8,
    ]
}

pub open spec fn u128_of_bytes(b: Seq<u8>) -> u128
    recommends b.len() == 16,
{
    ((b[0] as u128) << 120u128) | ((b[1] as u128) << 112u128) | ((b[2] as u128) << 104u128)
        | ((b[3] as u128) << 96u128) | ((b[4] as u128) << 88u128) | ((b[5] as u128) << 80u128)
        | ((b[6] as u128) << 72u128) | ((b[7] as u128) << 64u128) | ((b[8] as u128) << 56u128)
        | ((b[9] as u128) << 48u128) | ((b[10] as u128) << 40u128) | ((b[11] as u128) << 32u128)
        | ((b[12] as u128) << 24u128) | ((b[13] as u128) << 16u128) | ((b[14] as u128) << 8u128)
        | (b[15] as u128)
}

proof fn lemma_u16_mask_fits(y: u16)
    ensures (y & 0xff) <= 0xff,
{
    assert((y & 0xff) <= 0xff) by (bit_vector);
}

proof fn lemma_u32_mask_fits(y: u32)
    ensures (y & 0xff) <= 0xff,
{
    assert((y & 0xff) <= 0xff) by (bit_vector);
}

proof fn lemma_u128_mask_fits(y: u128)
    ensures (y & 0xff) <= 0xff,
{
    assert((y & 0xff) <= 0xff) by (bit_vector);
}

/// Appends the two big-endian bytes of `x`.
pub fn push_u16(out: &mut Vec<u8>, x: u16)
    ensures final(out)@ == old(out)@ + u16_bytes(x),
{
    proof {
        lemma_u16_mask_fits(x >> 8u16);
        lemma_u16_mask_fits(x);
    }
    out.push(((x >> 8u16) & 0xff) as u8);
    out.push((x & 0xff) as u8);
    proof {
        assert(out@ =~= old(out)@ + u16_bytes(x));
    }
}

/// Appends the four big-endian bytes of `x`.
pub fn push_u32(out: &mut Vec<u8>, x: u32)
    ensures final(out)@ == old(out)@ + u32_bytes(x),
{
    proof {
        lemma_u32_mask_fits(x >> 24u32);
        lemma_u32_mask_fits(x >> 16u32);
        lemma_u32_mask_fits(x >> 8u32);
        lemma_u32_mask_fits(x);
    }
    out.push(((x >> 24u32) & 0xff) as u8);
    out.push(((x >> 16u32) & 0xff) as u8);
    out.push(((x >> 8u32) & 0xff) as u8);
    out.push((x & 0xff) as u8);
    proof {
        assert(out@ =~= old(out)@ + u32_bytes(x));
    }
}

/// Appends the sixteen big-endian bytes of `x`.
pub fn push_u128(out: &mut Vec<u8>, x: u128)
    ensures final(out)@ == old(out)@ + u128_bytes(x),
{
    proof {
        lemma_u128_mask_fits(x >> 120u128);
        lemma_u128_mask_fits(x >> 112u128);
        lemma_u128_mask_fits(x >> 104u128);
        lemma_u128_mask_fits(x >> 96u128);
        lemma_u128_mask_fits(x >> 88u128);
        lemma_u128_mask_fits(x >> 80u128);
        lemma_u128_mask_fits(x >> 72u128);
        lemma_u128_mask_fits(x >> 64u128);
        lemma_u128_mask_fits(x >> 56u128);
        lemma_u128_mask_fits(x >> 48u128);
        lemma_u128_mask_fits(x >> 40u128);
        lemma_u128_mask_fits(x >> 32u128);
        lemma_u128_mask_fits(x >> 24u128);
        lemma_u128_mask_fits(x >> 16u128);
        lemma_u128_mask_fits(x >> 8u128);
        lemma_u128_mask_fits(x);
    }
    out.push(((x >> 120u128) & 0xff) as u8);
    out.push(((x >> 112u128) & 0xff) as u8);
    out.push(((x >> 104u128) & 0xff) as u8);
    out.push(((x >> 96u128) & 0xff) as u8);
    out.push(((x >> 88u128) & 0xff) as u8);
    out.push(((x >> 80u128) & 0xff) as u8);
    out.push(((x >> 72u128) & 0xff) as u8);
    out.push(((x >> 64u128) & 0xff) as u8);
    out.push(((x >> 56u128) & 0xff) as u8);
    out.push(((x >> 48u128) & 0xff) as u8);
    out.push(((x >> 40u128) & 0xff) as u8);
    out.push(((x >> 32u128) & 0xff) as u8);
    out.push(((x >> 24u128) & 0xff) as u8);
    out.push(((x >> 16u128) & 0xff) as u8);
    out.push(((x >> 8u128) & 0xff) as u8);
    out.push((x & 0xff) as u8);
    proof {
        assert(out@ =~= old(out)@ + u128_bytes(x));
    }
}

/// Reads two big-endian bytes at `off`.
pub fn read_u16(buf: &Vec<u8>, off: usize) -> (r: u16)
    requires off + 2 <= buf.len(),
    ensures r == u16_of_bytes(buf@.subrange(off as int, off as int + 2)),
{
    let r = ((buf[off] as u16) << 8u16) | (buf[off + 1] as u16);
    proof {
        let b = buf@.subrange(off as int, off as int + 2);
        assert(b[0] == buf@[off as int]);
        assert(b[1] == buf@[off as int + 1]);
    }
    r
}

/// Reads four big-endian bytes at `off`.
pub fn read_u32(buf: &Vec<u8>, off: usize) -> (r: u32)
    requires off + 4 <= buf.len(),
    ensures r == u32_of_bytes(buf@.subrange(off as int, off as int + 4)),
{
    let r = ((buf[off] as u32) << 24u32) | ((buf[off + 1] as u32) << 16u32)
        | ((buf[off + 2] as u32) << 8u32) | (buf[off + 3] as u32);
    proof {
        let b = buf@.subrange(off as int, off as int + 4);
        assert(b[0] == buf@[off as int]);
        assert(b[1] == buf@[off as int + 1]);
        assert(b[2] == buf@[off as int + 2]);
        assert(b[3] == buf@[off as int + 3]);
    }
    r
}

/// Reads sixteen big-endian bytes at `off`.
pub fn read_u128(buf: &Vec<u8>, off: usize) -> (r: u128)
    requires off + 16 <= buf.len(),
    ensures r == u128_of_bytes(buf@.subrange(off as int, off as int + 16)),
{
    let r = ((buf[off] as u128) << 120u128) | ((buf[off + 1] as u128) << 112u128)
        | ((buf[off + 2] as u128) << 104u128) | ((buf[off + 3] as u128) << 96u128)
        | ((buf[off + 4] as u128) << 88u128) | ((buf[off + 5] as u128) << 80u128)
        | ((buf[off + 6] as u128) << 72u128) | ((buf[off + 7] as u128) << 64u128)
        | ((buf[off + 8] as u128) << 56u128) | ((buf[off + 9] as u128) << 48u128)
        | ((buf[off + 10] as u128) << 40u128) | ((buf[off + 11] as u128) << 32u128)
        | ((buf[off + 12] as u128) << 24u128) | ((buf[off + 13] as u128) << 16u128)
        | ((buf[off + 14] as u128) << 8u128) | (buf[off + 15] as u128);
    proof {
        let b = buf@.subrange(off as int, off as int + 16);
        assert forall|k: int| 0 <= k < 16 implies b[k] == buf@[off as int + k] by {}
    }
    r
}

/// Splitting an integer into its big-endian bytes and reassembling them
/// gives the integer back.
pub proof fn lemma_u16_roundtrip(x: u16)
    ensures u16_of_bytes(u16_bytes(x)) == x,
{
    assert(((((x >> 8u16) & 0xff) as u8 as u16) << 8u16) | (((x & 0xff) as u8) as u16) == x)
        by (bit_vector);
}

/// Splitting an integer into its big-endian bytes and reassembling them
/// gives the integer back.
pub proof fn lemma_u32_roundtrip(x: u32)
    ensures u32_of_bytes(u32_bytes(x)) == x,
{
    assert(
        ((((x >> 24u32) & 0xff) as u8 as u32) << 24u32)
            | ((((x >> 16u32) & 0xff) as u8 as u32) << 16u32)
            | ((((x >> 8u32) & 0xff) as u8 as u32) << 8u32)
            | (((x & 0xff) as u8) as u32) == x) by (bit_vector);
}

/// Splitting an integer into its big-endian bytes and reassembling them
/// gives the integer back.
pub proof fn lemma_u128_roundtrip(x: u128)
    ensures u128_of_bytes(u128_bytes(x)) == x,
{
    assert(
        ((((x >> 120u128) & 0xff) as u8 as u128) << 120u128)
            | ((((x >> 112u128) & 0xff) as u8 as u128) << 112u128)
            | ((((x >> 104u128) & 0xff) as u8 as u128) << 104u128)
            | ((((x >> 96u128) & 0xff) as u8 as u128) << 96u128)
            | ((((x >> 88u128) & 0xff) as u8 as u128) << 88u128)
            | ((((x >> 80u128) & 0xff) as u8 as u128) << 80u128)
            | ((((x >> 72u128) & 0xff) as u8 as u128) << 72u128)
            | ((((x >> 64u128) & 0xff) as u8 as u128) << 64u128)
            | ((((x >> 56u128) & 0xff) as u8 as u128) << 56u128)
            | ((((x >> 48u128) & 0xff) as u8 as u128) << 48u128)
            | ((((x >> 40u128) & 0xff) as u8 as u128) << 40u128)
            | ((((x >> 32u128) & 0xff) as u8 as u128) << 32u128)
            | ((((x >> 24u128) & 0xff) as u8 as u128) << 24u128)
            | ((((x >> 16u128) & 0xff) as u8 as u128) << 16u128)
            | ((((x >> 8u128) & 0xff) as u8 as u128) << 8u128)
            | (((x & 0xff) as u8) as u128) == x) by (bit_vector);
}

// ---------------------------------------------------------------------------
// Messages
// ---------------------------------------------------------------------------

/// One control-channel message.
///
/// `Hello` asks for a public port (0 means any); `HelloAck` grants one.
/// `Challenge` and `Authenticate` carry the nonce and its keyed-hash tag.
/// `Connect` announces a waiting public connection; `Accept` claims it on a
/// fresh data connection. `Error` carries the peer-visible reason as raw
/// bytes; turning it into text is the caller's concern.
#[derive(Debug)]
pub enum Message {
    Hello(u16),
    HelloAck(u16),
    Challenge(u128),
    Authenticate(Vec<u8>),
    Heartbeat,
    Connect(u128),
    Accept(u128),
    Error(Vec<u8>),
}

/// Mathematical image of a [`Message`]: byte vectors become sequences.
pub enum MsgView {
    Hello(u16),
    HelloAck(u16),
    Challenge(u128),
    Authenticate(Seq<u8>),
    Heartbeat,
    Connect(u128),
    Accept(u128),
    Error(Seq<u8>),
}

impl View for Message {
    type V = MsgView;

    open spec fn view(&self) -> MsgView {
        match self {
            Message::Hello(p) => MsgView::Hello(*p),
            Message::HelloAck(p) => MsgView::HelloAck(*p),
            Message::Challenge(n) => MsgView::Challenge(*n),
            Message::Authenticate(t) => MsgView::Authenticate(t@),
            Message::Heartbeat => MsgView::Heartbeat,
            Message::Connect(id) => MsgView::Connect(*id),
            Message::Accept(id) => MsgView::Accept(*id),
            Message::Error(r) => MsgView::Error(r@),
        }
    }
}

/// A message the codec can frame: the tag has its fixed length and the error
/// reason leaves room for the tag byte within the body bound.
pub open spec fn msg_wf(m: MsgView) -> bool {
    match m {
        MsgView::Authenticate(t) => t.len() == TAG_LEN,
        MsgView::Error(r) => r.len() <= MAX_BODY_LEN - 1,
        _ => true,
    }
}

/// Body of a frame: one tag byte, then the variant's fields.
pub open spec fn body_bytes(m: MsgView) -> Seq<u8> {
    match m {
        MsgView::Hello(p) => seq![TAG_HELLO] + u16_bytes(p),
        MsgView::HelloAck(p) => seq![TAG_HELLO_ACK] + u16_bytes(p),
        MsgView::Challenge(n) => seq![TAG_CHALLENGE] + u128_bytes(n),
        MsgView::Authenticate(t) => seq![TAG_AUTHENTICATE] + t,
        MsgView::Heartbeat => seq![TAG_HEARTBEAT],
        MsgView::Connect(id) => seq![TAG_CONNECT] + u128_bytes(id),
        MsgView::Accept(id) => seq![TAG_ACCEPT] + u128_bytes(id),
        MsgView::Error(r) => seq![TAG_ERROR] + r,
    }
}

/// The whole frame: big-endian body length, then the body.
pub open spec fn frame_bytes(m: MsgView) -> Seq<u8> {
    u32_bytes(body_bytes(m).len() as u32) + body_bytes(m)
}

/// Body length a buffer declares in its first four bytes.
pub open spec fn declared_len(b: Seq<u8>) -> int
    recommends b.len() >= 4,
{
    u32_of_bytes(b.subrange(0, 4)) as int
}

/// Meaning of a complete frame body, if it has one.
pub open spec fn parse_body(b: Seq<u8>) -> Option<MsgView> {
    if b.len() < 1 {
        None
    } else {
        let rest = b.subrange(1, b.len() as int);
        if b[0] == TAG_HELLO {
            if rest.len() == 2 { Some(MsgView::Hello(u16_of_bytes(rest))) } else { None }
        } else if b[0] == TAG_HELLO_ACK {
            if rest.len() == 2 { Some(MsgView::HelloAck(u16_of_bytes(rest))) } else { None }
        } else if b[0] == TAG_CHALLENGE {
            if rest.len() == 16 { Some(MsgView::Challenge(u128_of_bytes(rest))) } else { None }
        } else if b[0] == TAG_AUTHENTICATE {
            if rest.len() == TAG_LEN { Some(MsgView::Authenticate(rest)) } else { None }
        } else if b[0] == TAG_HEARTBEAT {
            if rest.len() == 0 { Some(MsgView::Heartbeat) } else { None }
        } else if b[0] == TAG_CONNECT {
            if rest.len() == 16 { Some(MsgView::Connect(u128_of_bytes(rest))) } else { None }
        } else if b[0] == TAG_ACCEPT {
            if rest.len() == 16 { Some(MsgView::Accept(u128_of_bytes(rest))) } else { None }
        } else if b[0] == TAG_ERROR {
            Some(MsgView::Error(rest))
        } else {
            None
        }
    }
}

/// Appends a copy of `data`.
pub fn push_bytes(out: &mut Vec<u8>, data: &Vec<u8>)
    ensures final(out)@ == old(out)@ + data@,
{
    let n = data.len();
    let mut i: usize = 0;
    while i < n
        invariant
            i <= n,
            n == data@.len(),
            out@ == old(out)@ + data@.take(i as int),
        decreases n - i,
    {
        out.push(data[i]);
        proof {
            assert(out@ =~= old(out)@ + data@.take(i as int + 1));
        }
        i = i + 1;
    }
    proof {
        assert(data@.take(n as int) =~= data@);
    }
}

/// Copies `len` bytes starting at `start`.
pub fn copy_range(buf: &Vec<u8>, start: usize, len: usize) -> (r: Vec<u8>)
    requires start + len <= buf.len(),
    ensures r@ == buf@.subrange(start as int, start as int + len as int),
{
    let mut r: Vec<u8> = Vec::new();
    let mut i: usize = 0;
    while i < len
        invariant
            i <= len,
            start + len <= buf.len(),
            r@ == buf@.subrange(start as int, start as int + i as int),
        decreases len - i,
    {
        r.push(buf[start + i]);
        proof {
            assert(r@ =~= buf@.subrange(start as int, start as int + i as int + 1));
        }
        i = i + 1;
    }
    r
}

/// Frames one message for the wire.
pub fn encode(m: &Message) -> (r: Vec<u8>)
    requires msg_wf(m@),
    ensures
        r@ == frame_bytes(m@),
        r@.len() <= 4 + MAX_BODY_LEN,
{
    let mut body: Vec<u8> = Vec::new();
    match m {
        Message::Hello(p) => {
            body.push(TAG_HELLO);
            push_u16(&mut body, *p);
        }
        Message::HelloAck(p) => {
            body.push(TAG_HELLO_ACK);
            push_u16(&mut body, *p);
        }
        Message::Challenge(n) => {
            body.push(TAG_CHALLENGE);
            push_u128(&mut body, *n);
        }
        Message::Authenticate(t) => {
            body.push(TAG_AUTHENTICATE);
            push_bytes(&mut body, t);
        }
        Message::Heartbeat => {
            body.push(TAG_HEARTBEAT);
        }
        Message::Connect(id) => {
            body.push(TAG_CONNECT);
            push_u128(&mut body, *id);
        }
        Message::Accept(id) => {
            body.push(TAG_ACCEPT);
            push_u128(&mut body, *id);
        }
        Message::Error(reason) => {
            body.push(TAG_ERROR);
            push_bytes(&mut body, reason);
        }
    }
    proof {
        assert(body@ =~= body_bytes(m@));
    }
    let mut r: Vec<u8> = Vec::new();
    push_u32(&mut r, body.len() as u32);
    push_bytes(&mut r, &body);
    r
}

/// Outcome of looking for one frame at the front of a receive buffer.
#[derive(Debug)]
pub enum DecodeResult {
    /// A complete, meaningful frame: the message and how many bytes it took.
    Frame { msg: Message, used: usize },
    /// The buffer holds only part of a frame so far.
    NeedMore,
    /// The peer sent an oversized, unknown or ill-sized frame; the
    /// connection it came over is beyond recovery.
    Malformed,
}

/// Reads the first frame of `buf`, if one is complete.
pub fn decode(buf: &Vec<u8>) -> (r: DecodeResult)
    ensures
        match r {
            DecodeResult::Frame { msg, used } => {
                &&& buf@.len() >= 4
                &&& 1 <= declared_len(buf@) <= MAX_BODY_LEN
                &&& used == 4 + declared_len(buf@)
                &&& used <= buf@.len()
                &&& parse_body(buf@.subrange(4, used as int)) == Some(msg@)
                &&& msg_wf(msg@)
            },
            DecodeResult::NeedMore => {
                buf@.len() < 4
                    || (declared_len(buf@) <= MAX_BODY_LEN && buf@.len() < 4 + declared_len(buf@))
            },
            DecodeResult::Malformed => {
                &&& buf@.len() >= 4
                &&& {
                    ||| declared_len(buf@) > MAX_BODY_LEN
                    ||| (buf@.len() >= 4 + declared_len(buf@)
                        && parse_body(buf@.subrange(4, 4 + declared_len(buf@))) is None)
                }
            },
        },
{
    let n = buf.len();
    if n < 4 {
        return DecodeResult::NeedMore;
    }
    let blen32 = read_u32(buf, 0);
    if blen32 > MAX_BODY_LEN as u32 {
        return DecodeResult::Malformed;
    }
    let blen = blen32 as usize;
    if n < 4 + blen {
        return DecodeResult::NeedMore;
    }
    let used = 4 + blen;
    let ghost body = buf@.subrange(4, used as int);
    if blen < 1 {
        return DecodeResult::Malformed;
    }
    let tag = buf[4];
    proof {
        assert(body[0] == buf@[4]);
        assert(body.subrange(1, body.len() as int) =~= buf@.subrange(5, used as int));
    }
    if tag == TAG_HELLO {
        if blen == 3 {
            let p = read_u16(buf, 5);
            return DecodeResult::Frame { msg: Message::Hello(p), used };
        }
        DecodeResult::Malformed
    } else if tag == TAG_HELLO_ACK {
        if blen == 3 {
            let p = read_u16(buf, 5);
            return DecodeResult::Frame { msg: Message::HelloAck(p), used };
        }
        DecodeResult::Malformed
    } else if tag == TAG_CHALLENGE {
        if blen == 17 {
            let nonce = read_u128(buf, 5);
            return DecodeResult::Frame { msg: Message::Challenge(nonce), used };
        }
        DecodeResult::Malformed
    } else if tag == TAG_AUTHENTICATE {
        if blen == 1 + TAG_LEN {
            let t = copy_range(buf, 5, TAG_LEN);
            return DecodeResult::Frame { msg: Message::Authenticate(t), used };
        }
        DecodeResult::Malformed
    } else if tag == TAG_HEARTBEAT {
        if blen == 1 {
            return DecodeResult::Frame { msg: Message::Heartbeat, used };
        }
        DecodeResult::Malformed
    } else if tag == TAG_CONNECT {
        if blen == 17 {
            let id = read_u128(buf, 5);
            return DecodeResult::Frame { msg: Message::Connect(id), used };
        }
        DecodeResult::Malformed
    } else if tag == TAG_ACCEPT {
        if blen == 17 {
            let id = read_u128(buf, 5);
            return DecodeResult::Frame { msg: Message::Accept(id), used };
        }
        DecodeResult::Malformed
    } else if tag == TAG_ERROR {
        let reason = copy_range(buf, 5, blen - 1);
        DecodeResult::Frame { msg: Message::Error(reason), used }
    } else {
        DecodeResult::Malformed
    }
}

/// A well-formed message framed by [`encode`] parses back to itself, whatever
/// bytes follow the frame in the buffer.
pub proof fn lemma_frame_roundtrip(m: MsgView, extra: Seq<u8>)
    requires msg_wf(m),
    ensures
        ({
            let b = frame_bytes(m) + extra;
            &&& b.len() >= 4
            &&& declared_len(b) == body_bytes(m).len()
            &&& 1 <= declared_len(b) <= MAX_BODY_LEN
            &&& 4 + declared_len(b) == frame_bytes(m).len()
            &&& parse_body(b.subrange(4, 4 + declared_len(b))) == Some(m)
        }),
{
    let b = frame_bytes(m) + extra;
    let body = body_bytes(m);
    let len32 = body.len() as u32;
    assert(b.subrange(0, 4) =~= u32_bytes(len32));
    lemma_u32_roundtrip(len32);
    assert(b.subrange(4, 4 + body.len() as int) =~= body);
    let rest = body.subrange(1, body.len() as int);
    match m {
        MsgView::Hello(p) => {
            assert(rest =~= u16_bytes(p));
            lemma_u16_roundtrip(p);
        }
        MsgView::HelloAck(p) => {
            assert(rest =~= u16_bytes(p));
            lemma_u16_roundtrip(p);
        }
        MsgView::Challenge(n) => {
            assert(rest =~= u128_bytes(n));
            lemma_u128_roundtrip(n);
        }
        MsgView::Authenticate(t) => {
            assert(rest =~= t);
        }
        MsgView::Heartbeat => {
        }
        MsgView::Connect(id) => {
            assert(rest =~= u128_bytes(id));
            lemma_u128_roundtrip(id);
        }
        MsgView::Accept(id) => {
            assert(rest =~= u128_bytes(id));
            lemma_u128_roundtrip(id);
        }
        MsgView::Error(r) => {
            assert(rest =~= r);
        }
    }
}

} // verus!

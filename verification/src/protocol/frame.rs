//! The framing of messages on the control stream.
//!
//! ```text
//! [Magic "TL" 2B][MsgID 1B][Payload Length 4B LE][CBOR payload]
//! ```
use bytes::{Buf, BufMut, BytesMut};
use vstd::prelude::*;
use crate::protocol::little_endian;
use crate::protocol::messages::{DecodeError, EncodeError, MessageId, MAX_PAYLOAD_SIZE};
use crate::text;

verus! {

/// Two bytes of magic, one of message id, four of length.
pub const HEADER_SIZE: usize = 7;

/// Splits a byte stream into frames and writes frames to one.
#[derive(Debug, Clone, Copy)]
pub struct TermlandCodec;

/// Why a frame could not be read or written.
#[derive(Debug, Clone)]
pub enum CodecError {
    InvalidMagic,
    PayloadTooLarge(u32),
    Encode(EncodeError),
    Decode(DecodeError),
    Io(String),
}

/// One frame taken off a stream: the message id that its header claims and the
/// encoded message.
#[derive(Debug)]
pub struct Frame {
    pub message_id: u8,
    pub payload: BytesMut,
}

/// The byte buffer of the `bytes` crate.
#[verifier::external_type_specification]
#[verifier::external_body]
pub struct ExBytesMut(BytesMut);

/// The bytes that a buffer holds.
pub uninterp spec fn contents(b: BytesMut) -> Seq<u8>;

/// `BytesMut::len`: how many bytes the buffer holds.
#[verifier::external_body]
fn buffer_len(b: &BytesMut) -> (n: usize)
    ensures
        n == contents(*b).len(),
{
    b.len()
}

/// `BytesMut` as a slice of bytes (its `Deref`): the bytes it holds.
#[verifier::external_body]
fn buffer_slice(b: &BytesMut) -> (s: &[u8])
    ensures
        s@ == contents(*b),
{
    b
}

/// `Buf::advance` on a `BytesMut`: drops the first `n` bytes. It panics past
/// the end.
#[verifier::external_body]
fn buffer_advance(b: &mut BytesMut, n: usize)
    requires
        n <= contents(*old(b)).len(),
    ensures
        contents(*final(b)) == contents(*old(b)).skip(n as int),
{
    b.advance(n)
}

/// `BytesMut::split_to`: the first `n` bytes are moved out, the rest stays. It
/// panics past the end.
#[verifier::external_body]
fn buffer_split_to(b: &mut BytesMut, n: usize) -> (head: BytesMut)
    requires
        n <= contents(*old(b)).len(),
    ensures
        contents(head) == contents(*old(b)).take(n as int),
        contents(*final(b)) == contents(*old(b)).skip(n as int),
{
    b.split_to(n)
}

/// `BytesMut::reserve`: makes room and leaves the bytes alone. It panics where
/// the room asked for is more than an allocation can have.
#[verifier::external_body]
fn buffer_reserve(b: &mut BytesMut, additional: usize)
    requires
        contents(*old(b)).len() + additional <= isize::MAX,
    ensures
        contents(*final(b)) == contents(*old(b)),
{
    b.reserve(additional)
}

/// `BufMut::put_slice` on a `BytesMut`: appends the bytes.
#[verifier::external_body]
fn buffer_put_slice(b: &mut BytesMut, s: &[u8])
    requires
        contents(*old(b)).len() + s@.len() <= isize::MAX,
    ensures
        contents(*final(b)) == contents(*old(b)) + s@,
{
    b.put_slice(s)
}

/// `BufMut::put_u8` on a `BytesMut`: appends one byte.
#[verifier::external_body]
fn buffer_put_u8(b: &mut BytesMut, n: u8)
    requires
        contents(*old(b)).len() + 1 <= isize::MAX,
    ensures
        contents(*final(b)) == contents(*old(b)).push(n),
{
    b.put_u8(n)
}

/// `BufMut::put_u32_le` on a `BytesMut`: appends the four bytes of a number,
/// least significant first.
#[verifier::external_body]
fn buffer_put_u32_le(b: &mut BytesMut, n: u32)
    requires
        contents(*old(b)).len() + 4 <= isize::MAX,
    ensures
        contents(*final(b)) == contents(*old(b)) + little_endian::le_bytes(n as nat, 4),
{
    b.put_u32_le(n)
}

/// The bytes of one frame.
pub open spec fn frame_bytes(id: u8, payload: Seq<u8>) -> Seq<u8> {
    seq![0x54u8, 0x4Cu8] + seq![id] + little_endian::le_bytes(payload.len(), 4) + payload
}

/// The payload length that a header claims.
pub open spec fn claimed_len(b: Seq<u8>) -> nat {
    little_endian::le_value(b.subrange(3, 7))
}

/// Whether bytes start with a header that a frame can have.
pub open spec fn header_ok(b: Seq<u8>) -> bool {
    &&& b.len() >= HEADER_SIZE
    &&& b[0] == 0x54
    &&& b[1] == 0x4C
    &&& claimed_len(b) <= MAX_PAYLOAD_SIZE
}

/// Whether bytes start with a whole frame.
pub open spec fn frame_complete(b: Seq<u8>) -> bool {
    header_ok(b) && b.len() >= HEADER_SIZE + claimed_len(b)
}

impl CodecError {
    /// What the error says.
    pub open spec fn text(self) -> Seq<char> {
        match self {
            CodecError::InvalidMagic => "invalid magic bytes"@,
            CodecError::PayloadTooLarge(n) => "payload too large: "@ + text::decimal(n as nat)
                + " bytes (max 16777216)"@,
            CodecError::Encode(e) => "encode error: "@ + e.text(),
            CodecError::Decode(e) => "decode error: "@ + e.text(),
            CodecError::Io(e) => "io error: "@ + e@,
        }
    }

    /// Describes the error.
    pub fn message(&self) -> (s: String)
        ensures
            s@ == self.text(),
    {
        let mut out: Vec<char> = Vec::new();
        match self {
            CodecError::InvalidMagic => text::push_str(&mut out, "invalid magic bytes"),
            CodecError::PayloadTooLarge(n) => {
                text::push_str(&mut out, "payload too large: ");
                let mut digits = text::decimal_chars(*n as u64);
                out.append(&mut digits);
                text::push_str(&mut out, " bytes (max 16777216)");
            },
            CodecError::Encode(e) => {
                text::push_str(&mut out, "encode error: ");
                text::push_str(&mut out, e.message().as_str());
            },
            CodecError::Decode(e) => {
                text::push_str(&mut out, "decode error: ");
                text::push_str(&mut out, e.message().as_str());
            },
            CodecError::Io(e) => {
                text::push_str(&mut out, "io error: ");
                text::push_str(&mut out, e.as_str());
            },
        }
        text::text_of(&out)
    }
}

impl TermlandCodec {
    /// Takes one frame off the front of `src`, if a whole one is there. A
    /// header that no frame can have is an error; whatever is not a whole
    /// frame stays in `src`.
    pub fn decode(&mut self, src: &mut BytesMut) -> (r: Result<Option<Frame>, CodecError>)
        ensures
            ({
                let b = contents(*old(src));
                if b.len() < HEADER_SIZE {
                    r matches Ok(None) && contents(*final(src)) == b
                } else if !(b[0] == 0x54 && b[1] == 0x4C) {
                    r matches Err(CodecError::InvalidMagic) && contents(*final(src)) == b
                } else if claimed_len(b) > MAX_PAYLOAD_SIZE {
                    &&& r matches Err(CodecError::PayloadTooLarge(n)) && n == claimed_len(b)
                    &&& contents(*final(src)) == b
                } else if b.len() < HEADER_SIZE + claimed_len(b) {
                    r matches Ok(None) && contents(*final(src)) == b
                } else {
                    let end = HEADER_SIZE + claimed_len(b);
                    &&& r matches Ok(Some(f)) && f.message_id == b[2] && contents(f.payload)
                        == b.subrange(7, end)
                    &&& contents(*final(src)) == b.skip(end)
                }
            }),
    {
        let ghost b = contents(*src);
        if buffer_len(src) < HEADER_SIZE {
            return Ok(None);
        }
        let bytes = buffer_slice(src);
        if bytes[0] != 0x54 || bytes[1] != 0x4C {
            return Err(CodecError::InvalidMagic);
        }
        let message_id: u8 = bytes[2];
        let payload_len: u32 = little_endian::u32_at(bytes, 3);
        if payload_len > MAX_PAYLOAD_SIZE {
            return Err(CodecError::PayloadTooLarge(payload_len));
        }
        let total_len: usize = HEADER_SIZE + payload_len as usize;
        let have: usize = buffer_len(src);
        if have < total_len {
            buffer_reserve(src, total_len - have);
            return Ok(None);
        }
        buffer_advance(src, HEADER_SIZE);
        let payload = buffer_split_to(src, payload_len as usize);
        proof {
            assert(b.skip(7).take(payload_len as int) == b.subrange(7, 7 + payload_len as int));
            assert(b.skip(7).skip(payload_len as int) == b.skip(7 + payload_len as int));
        }
        Ok(Some(Frame { message_id, payload }))
    }

    /// Appends the frame of an encoded message to `dst`, or refuses a payload
    /// over the limit and leaves `dst` alone.
    pub fn encode(&mut self, id: MessageId, payload: &[u8], dst: &mut BytesMut) -> (r: Result<
        (),
        CodecError,
    >)
        requires
            payload@.len() <= MAX_PAYLOAD_SIZE ==> contents(*old(dst)).len() + HEADER_SIZE
                + payload@.len() <= isize::MAX,
        ensures
            payload@.len() <= MAX_PAYLOAD_SIZE ==> {
                &&& r is Ok
                &&& contents(*final(dst)) == contents(*old(dst)) + frame_bytes(id.code(), payload@)
            },
            payload@.len() > MAX_PAYLOAD_SIZE ==> {
                &&& r matches Err(CodecError::PayloadTooLarge(n)) && n == (if payload@.len()
                    <= u32::MAX {
                    payload@.len() as int
                } else {
                    u32::MAX as int
                })
                &&& contents(*final(dst)) == contents(*old(dst))
            },
    {
        if payload.len() > MAX_PAYLOAD_SIZE as usize {
            let n: u32 = if payload.len() <= u32::MAX as usize {
                payload.len() as u32
            } else {
                u32::MAX
            };
            return Err(CodecError::PayloadTooLarge(n));
        }
        let ghost b = contents(*dst);
        buffer_reserve(dst, HEADER_SIZE + payload.len());
        let magic: [u8; 2] = [0x54, 0x4C];
        buffer_put_slice(dst, &magic);
        buffer_put_u8(dst, id.as_u8());
        proof {
            little_endian::le_bytes_len(payload@.len(), 4);
        }
        buffer_put_u32_le(dst, payload.len() as u32);
        buffer_put_slice(dst, payload);
        proof {
            assert(magic@ == seq![0x54u8, 0x4Cu8]);
            assert(contents(*dst) == b + frame_bytes(id.code(), payload@));
        }
        Ok(())
    }
}

/// A frame that was written is read back whole: the id and the payload come
/// out, and what followed it stays for the next read.
pub proof fn frames_round_trip(id: u8, payload: Seq<u8>, rest: Seq<u8>)
    requires
        payload.len() <= MAX_PAYLOAD_SIZE,
    ensures
        ({
            let b = frame_bytes(id, payload) + rest;
            &&& frame_complete(b)
            &&& b[2] == id
            &&& claimed_len(b) == payload.len()
            &&& b.subrange(7, (HEADER_SIZE + claimed_len(b)) as int) == payload
            &&& b.skip((HEADER_SIZE + claimed_len(b)) as int) == rest
        }),
{
    let b = frame_bytes(id, payload) + rest;
    little_endian::le_bytes_len(payload.len(), 4);
    little_endian::u32_fits(payload.len() as u32);
    little_endian::le_round_trips(payload.len(), 4);
    assert(b.subrange(3, 7) == little_endian::le_bytes(payload.len(), 4));
    assert(b.subrange(7, 7 + payload.len() as int) == payload);
    assert(b.skip(7 + payload.len() as int) == rest);
}

/// No proper prefix of a frame is an error or a frame: a reader waits.
pub proof fn partial_frames_wait(id: u8, payload: Seq<u8>, n: int)
    requires
        payload.len() <= MAX_PAYLOAD_SIZE,
        0 <= n < HEADER_SIZE + payload.len(),
    ensures
        ({
            let b = frame_bytes(id, payload).take(n);
            b.len() < HEADER_SIZE || (header_ok(b) && !frame_complete(b))
        }),
{
    let whole = frame_bytes(id, payload);
    frames_round_trip(id, payload, Seq::empty());
    assert(whole + Seq::<u8>::empty() == whole);
    let b = whole.take(n);
    little_endian::le_bytes_len(payload.len(), 4);
    if n >= 7 {
        assert(b.subrange(3, 7) == whole.subrange(3, 7));
    }
}

/// What was framed comes out as it went in: the same id and the same payload,
/// with what follows left for later. A frame that has not come whole is waited
/// for, and nothing of it is lost.
pub proof fn framed_messages_come_out()
    ensures
        forall|
            c: &mut TermlandCodec,
            id: MessageId,
            payload: &[u8],
            dst: &mut BytesMut,
            w: Result<(), CodecError>,
            d: &mut TermlandCodec,
            src: &mut BytesMut,
            r: Result<Option<Frame>, CodecError>,
            rest: Seq<u8>,
        |
            #![trigger call_ensures(TermlandCodec::encode, (c, id, payload, dst), w), call_ensures(TermlandCodec::decode, (d, src), r), contents(*final(dst)) + rest]
            call_ensures(TermlandCodec::encode, (c, id, payload, dst), w) && call_ensures(
                TermlandCodec::decode,
                (d, src),
                r,
            ) && contents(*dst).len() == 0 && 7 + payload@.len() <= isize::MAX && payload@.len()
                <= 16 * 1024 * 1024 && contents(*src) == contents(*final(dst)) + rest ==> {
                &&& w is Ok
                &&& r matches Ok(Some(f))
                &&& f.message_id == id.code()
                &&& contents(f.payload) == payload@
                &&& contents(*final(src)) == rest
            },
        forall|
            c: &mut TermlandCodec,
            id: MessageId,
            payload: &[u8],
            dst: &mut BytesMut,
            w: Result<(), CodecError>,
            d: &mut TermlandCodec,
            src: &mut BytesMut,
            r: Result<Option<Frame>, CodecError>,
            n: int,
        |
            #![trigger call_ensures(TermlandCodec::encode, (c, id, payload, dst), w), call_ensures(TermlandCodec::decode, (d, src), r), contents(*final(dst)).take(n)]
            call_ensures(TermlandCodec::encode, (c, id, payload, dst), w) && call_ensures(
                TermlandCodec::decode,
                (d, src),
                r,
            ) && contents(*dst).len() == 0 && 7 + payload@.len() <= isize::MAX && payload@.len()
                <= 16 * 1024 * 1024 && 0 <= n < 7 + payload@.len() && contents(*src) == contents(*final(dst)).take(
                n,
            ) ==> {
                &&& r matches Ok(None)
                &&& contents(*final(src)) == contents(*src)
            },
{
    assert forall|
        c: &mut TermlandCodec,
        id: MessageId,
        payload: &[u8],
        dst: &mut BytesMut,
        w: Result<(), CodecError>,
        d: &mut TermlandCodec,
        src: &mut BytesMut,
        r: Result<Option<Frame>, CodecError>,
        rest: Seq<u8>,
    |
        #![trigger call_ensures(TermlandCodec::encode, (c, id, payload, dst), w), call_ensures(TermlandCodec::decode, (d, src), r), contents(*final(dst)) + rest]
        call_ensures(TermlandCodec::encode, (c, id, payload, dst), w) && call_ensures(
            TermlandCodec::decode,
            (d, src),
            r,
        ) && contents(*dst).len() == 0 && 7 + payload@.len() <= isize::MAX && payload@.len() <= 16
            * 1024 * 1024 && contents(*src) == contents(*final(dst)) + rest implies {
        &&& w is Ok
        &&& r matches Ok(Some(f))
        &&& f.message_id == id.code()
        &&& contents(f.payload) == payload@
        &&& contents(*final(src)) == rest
    } by {
        frames_round_trip(id.code(), payload@, rest);
        assert(contents(*final(dst)) =~= frame_bytes(id.code(), payload@));
    }
    assert forall|
        c: &mut TermlandCodec,
        id: MessageId,
        payload: &[u8],
        dst: &mut BytesMut,
        w: Result<(), CodecError>,
        d: &mut TermlandCodec,
        src: &mut BytesMut,
        r: Result<Option<Frame>, CodecError>,
        n: int,
    |
        #![trigger call_ensures(TermlandCodec::encode, (c, id, payload, dst), w), call_ensures(TermlandCodec::decode, (d, src), r), contents(*final(dst)).take(n)]
        call_ensures(TermlandCodec::encode, (c, id, payload, dst), w) && call_ensures(
            TermlandCodec::decode,
            (d, src),
            r,
        ) && contents(*dst).len() == 0 && 7 + payload@.len() <= isize::MAX && payload@.len() <= 16
            * 1024 * 1024 && 0 <= n < 7 + payload@.len() && contents(*src) == contents(*final(dst)).take(
            n,
        ) implies {
        &&& r matches Ok(None)
        &&& contents(*final(src)) == contents(*src)
    } by {
        partial_frames_wait(id.code(), payload@, n);
        assert(contents(*final(dst)) =~= frame_bytes(id.code(), payload@));
    }
}

/// A frame starts with the two letters of the protocol, the id and the length
/// of its payload. Bytes that start otherwise are refused, and so is a payload
/// over the limit, on either side.
pub proof fn only_frames_are_read()
    ensures
        forall|d: &mut TermlandCodec, src: &mut BytesMut, r: Result<Option<Frame>, CodecError>|
            #[trigger]
            call_ensures(TermlandCodec::decode, (d, src), r) && contents(*src).len() >= 7 ==> {
                let b = contents(*src);
                &&& b[0] != 'T' as u8 || b[1] != 'L' as u8 ==> (r matches Err(
                    CodecError::InvalidMagic,
                ))
                &&& r matches Ok(Some(f)) ==> b[0] == 'T' as u8 && b[1] == 'L' as u8
                    && f.message_id == b[2] && contents(f.payload).len() <= 16 * 1024 * 1024
                    && b.len() == 7 + contents(f.payload).len() + contents(*final(src)).len()
            },
        forall|
            c: &mut TermlandCodec,
            id: MessageId,
            payload: &[u8],
            dst: &mut BytesMut,
            w: Result<(), CodecError>,
        | #[trigger]
            call_ensures(TermlandCodec::encode, (c, id, payload, dst), w) && contents(*dst).len()
                + 7 + payload@.len() <= isize::MAX ==> {
                let n = contents(*dst).len() as int;
                let b = contents(*final(dst));
                &&& w is Ok <==> payload@.len() <= 16 * 1024 * 1024
                &&& w is Err ==> b == contents(*dst)
                &&& w is Ok ==> {
                    &&& b.len() == n + 7 + payload@.len()
                    &&& b.take(n) == contents(*dst)
                    &&& b[n] == 'T' as u8 && b[n + 1] == 'L' as u8
                    &&& b[n + 2] == id.code()
                    &&& b.skip(n + 7) == payload@
                }
            },
{
    assert forall|
        c: &mut TermlandCodec,
        id: MessageId,
        payload: &[u8],
        dst: &mut BytesMut,
        w: Result<(), CodecError>,
    | #[trigger]
        call_ensures(TermlandCodec::encode, (c, id, payload, dst), w) && contents(*dst).len() + 7
            + payload@.len() <= isize::MAX && w is Ok implies {
        let n = contents(*dst).len() as int;
        let b = contents(*final(dst));
        &&& b.len() == n + 7 + payload@.len()
        &&& b.take(n) == contents(*dst)
        &&& b[n] == 'T' as u8 && b[n + 1] == 'L' as u8
        &&& b[n + 2] == id.code()
        &&& b.skip(n + 7) == payload@
    } by {
        let n = contents(*dst).len() as int;
        let b = contents(*final(dst));
        little_endian::le_bytes_len(payload@.len(), 4);
        assert(b.take(n) =~= contents(*dst));
        assert(b.skip(n + 7) =~= payload@);
    }
}

/// An error of the stream says what is wrong and why.
pub proof fn stream_errors_say_why(e: &CodecError, s: String)
    requires
        call_ensures(CodecError::message, (e,), s),
    ensures
        e matches CodecError::Io(x) ==> text::has_suffix(s@, x@),
        e matches CodecError::Encode(x) ==> text::has_suffix(s@, x.0@),
        e matches CodecError::Decode(x) ==> text::has_suffix(s@, x.0@),
        e matches CodecError::PayloadTooLarge(n) ==> text::holds(s@, text::decimal(n as nat))
            && text::holds(s@, text::decimal(16777216)),
        *e is InvalidMagic ==> s@ == "invalid magic bytes"@,
{
    reveal_strlit("io error: ");
    reveal_strlit("encode error: ");
    reveal_strlit("decode error: ");
    match *e {
        CodecError::Io(x) => {
            assert(s@.skip(s@.len() - x@.len()) =~= x@);
        },
        CodecError::Encode(x) => {
            assert(s@.skip(s@.len() - x.0@.len()) =~= x.0@);
        },
        CodecError::Decode(x) => {
            assert(s@.skip(s@.len() - x.0@.len()) =~= x.0@);
        },
        CodecError::PayloadTooLarge(n) => {
            let a = "payload too large: "@;
            let b = " bytes (max 16777216)"@;
            let d = text::decimal(n as nat);
            assert(s@ == a + d + b);
            reveal_strlit(" bytes (max 16777216)");
            reveal_strlit(" bytes (max ");
            reveal_strlit(")");
            reveal_with_fuel(text::decimal, 9);
            let limit = text::decimal(16777216);
            assert(limit =~= seq!['1', '6', '7', '7', '7', '2', '1', '6']);
            assert(b =~= " bytes (max "@ + limit + ")"@);
            assert(s@ =~= (a + d + " bytes (max "@) + limit + ")"@);
        },
        CodecError::InvalidMagic => {},
    }
}

} // verus!

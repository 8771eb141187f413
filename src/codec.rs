use bytes::{Buf, BufMut, BytesMut};
use vstd::prelude::*;

verus! {

/// bytes' growable buffer, which frames are read from and written to.
#[verifier::external_type_specification]
#[verifier::external_body]
pub struct ExBytesMut(BytesMut);

/// bincode's error, carried through as it is.
#[verifier::external_type_specification]
#[verifier::external_body]
pub struct ExBincodeErrorKind(bincode::ErrorKind);

/// The bytes held by a buffer, front first.
pub uninterp spec fn buf_contents(b: BytesMut) -> Seq<u8>;

/// Width of the length prefix that opens every frame.
pub const PREFIX_LEN: usize = 4;

/// The application messages: a liveness probe and its acknowledgment.
#[derive(Clone, Copy, Debug, PartialEq, Eq, Structural)]
pub enum Message {
    Ping,
    Pong,
}

/// The reply that each message expects, if any.
pub open spec fn response_of(m: Message) -> Option<Message> {
    match m {
        Message::Ping => Some(Message::Pong),
        Message::Pong => None,
    }
}

impl Message {
    /// The reply to this message: a probe is acknowledged, an acknowledgment
    /// gets no reply.
    pub fn response(&self) -> (r: Option<Message>)
        ensures
            r == response_of(*self),
    {
        match self {
            Message::Ping => Some(Message::Pong),
            Message::Pong => None,
        }
    }
}

/// Why a complete frame could not be turned into a message.
#[derive(Debug)]
pub enum Error {
    /// The payload is too short to hold a serialized message.
    BincodeError(bincode::Error),
    /// The payload names a variant that no message has.
    UnknownVariant(u32),
}

/// The big-endian value of the first four bytes of `s`.
pub open spec fn be_u32_value(s: Seq<u8>) -> int {
    s[0] as int * 16777216 + s[1] as int * 65536 + s[2] as int * 256 + s[3] as int
}

/// The little-endian value of the first four bytes of `s`.
pub open spec fn le_u32_value(s: Seq<u8>) -> int {
    s[0] as int + s[1] as int * 256 + s[2] as int * 65536 + s[3] as int * 16777216
}

/// The four big-endian bytes of `n`.
pub open spec fn be_u32_bytes(n: u32) -> Seq<u8> {
    seq![(n / 16777216) as u8, (n / 65536 % 256) as u8, (n / 256 % 256) as u8, (n % 256) as u8]
}

/// The four little-endian bytes of `n`.
pub open spec fn le_u32_bytes(n: u32) -> Seq<u8> {
    seq![(n % 256) as u8, (n / 256 % 256) as u8, (n / 65536 % 256) as u8, (n / 16777216) as u8]
}

/// The index of a message among the variants, which is what bincode writes
/// for a unit variant.
pub open spec fn tag_of(m: Message) -> u32 {
    match m {
        Message::Ping => 0,
        Message::Pong => 1,
    }
}

pub open spec fn message_of_tag(t: int) -> Option<Message> {
    if t == 0 {
        Some(Message::Ping)
    } else if t == 1 {
        Some(Message::Pong)
    } else {
        None
    }
}

/// The serialized form of a message: its variant index as a little-endian u32.
pub open spec fn payload_of(m: Message) -> Seq<u8> {
    le_u32_bytes(tag_of(m))
}

/// The message that a payload deserializes to; bytes after the variant index
/// are ignored.
pub open spec fn message_of_payload(p: Seq<u8>) -> Option<Message> {
    if p.len() >= 4 {
        message_of_tag(le_u32_value(p))
    } else {
        None
    }
}

/// The bytes of one frame: the payload's length, big-endian, then the payload.
pub open spec fn frame_of(m: Message) -> Seq<u8> {
    be_u32_bytes(payload_of(m).len() as u32) + payload_of(m)
}

/// What one decoding attempt yields.
pub enum Decoded {
    /// No complete frame is buffered yet.
    Incomplete,
    /// A complete frame held this message.
    Frame(Message),
    /// A complete frame held a payload that is no message.
    Malformed,
}

/// The payload length that the buffered prefix declares.
pub open spec fn declared_len(s: Seq<u8>) -> int {
    be_u32_value(s)
}

/// Whether the buffer holds a whole frame at its front.
pub open spec fn has_frame(s: Seq<u8>) -> bool {
    s.len() >= PREFIX_LEN && s.len() >= PREFIX_LEN + declared_len(s)
}

/// The payload of the frame at the front of the buffer.
pub open spec fn frame_payload(s: Seq<u8>) -> Seq<u8> {
    s.subrange(PREFIX_LEN as int, PREFIX_LEN + declared_len(s))
}

/// One decoding attempt on buffered bytes: its outcome and the bytes left.
pub open spec fn decode_step(s: Seq<u8>) -> (Decoded, Seq<u8>) {
    if !has_frame(s) {
        (Decoded::Incomplete, s)
    } else {
        let end = PREFIX_LEN + declared_len(s);
        let rest = s.subrange(end, s.len() as int);
        match message_of_payload(frame_payload(s)) {
            Some(m) => (Decoded::Frame(m), rest),
            None => (Decoded::Malformed, rest),
        }
    }
}

/// The outcome that a result of `Codec::decode` stands for.
pub open spec fn decoded_of(r: Result<Option<Message>, Error>) -> Decoded {
    match r {
        Ok(Some(m)) => Decoded::Frame(m),
        Ok(None) => Decoded::Incomplete,
        Err(_) => Decoded::Malformed,
    }
}

/// Relies on BytesMut::len: the number of bytes buffered.
#[verifier::external_body]
fn buf_len(b: &BytesMut) -> (r: usize)
    ensures
        r == buf_contents(*b).len(),
{
    b.len()
}

/// Relies on Buf::get_u32, read from the buffer's first four bytes: they are
/// taken as a big-endian integer.
#[verifier::external_body]
fn peek_u32(b: &BytesMut) -> (r: u32)
    requires
        buf_contents(*b).len() >= 4,
    ensures
        r == be_u32_value(buf_contents(*b)),
{
    (&b[..4]).get_u32()
}

/// Relies on BytesMut::split_to: the first `at` bytes move to the result.
#[verifier::external_body]
pub(crate) fn split_front(b: &mut BytesMut, at: usize) -> (r: BytesMut)
    requires
        at <= buf_contents(*old(b)).len(),
    ensures
        buf_contents(r) == buf_contents(*old(b)).take(at as int),
        buf_contents(*final(b)) == buf_contents(*old(b)).skip(at as int),
{
    b.split_to(at)
}

/// Relies on BytesMut::reserve: room is made, the contents stay.
#[verifier::external_body]
fn reserve(b: &mut BytesMut, additional: usize)
    requires
        buf_contents(*old(b)).len() + additional <= isize::MAX,
    ensures
        buf_contents(*final(b)) == buf_contents(*old(b)),
{
    b.reserve(additional)
}

/// Relies on BufMut::put_u32: the four big-endian bytes of `n` are appended.
#[verifier::external_body]
fn put_u32(b: &mut BytesMut, n: u32)
    requires
        buf_contents(*old(b)).len() + 4 <= isize::MAX,
    ensures
        buf_contents(*final(b)) == buf_contents(*old(b)) + be_u32_bytes(n),
{
    b.put_u32(n)
}

/// Relies on BytesMut's BufMut::put_slice: the bytes of `s` are appended.
#[verifier::external_body]
pub(crate) fn put_slice(b: &mut BytesMut, s: &[u8])
    requires
        buf_contents(*old(b)).len() + s@.len() <= isize::MAX,
    ensures
        buf_contents(*final(b)) == buf_contents(*old(b)) + s@,
{
    b.put_slice(s)
}

/// Relies on bincode::serialize of a u32: with the default options it
/// writes the four little-endian bytes, under no size limit.
#[verifier::external_body]
fn serialize_u32(v: u32) -> (r: Result<Vec<u8>, bincode::Error>)
    ensures
        r is Ok,
        r is Ok ==> r->Ok_0@ == le_u32_bytes(v),
{
    bincode::serialize(&v)
}

/// Relies on bincode::deserialize of a u32 from the buffered bytes: with the
/// default options it reads four little-endian bytes, allows trailing bytes,
/// and fails when fewer than four are there.
#[verifier::external_body]
fn deserialize_u32(b: &BytesMut) -> (r: Result<u32, bincode::Error>)
    ensures
        r is Ok <==> buf_contents(*b).len() >= 4,
        r is Ok ==> r->Ok_0 == le_u32_value(buf_contents(*b)),
{
    bincode::deserialize(&b[..])
}

/// The length-prefixed frame codec.
#[derive(Debug)]
pub struct Codec;

impl Codec {
    /// Takes one frame off the front of `buf` if a whole one is there.
    /// `Ok(None)` leaves the buffer untouched; otherwise exactly the frame's
    /// bytes are removed, whether its payload is a message or not.
    pub fn decode(&mut self, buf: &mut BytesMut) -> (r: Result<Option<Message>, Error>)
        ensures
            (decoded_of(r), buf_contents(*final(buf))) == decode_step(buf_contents(*old(buf))),
            has_frame(buf_contents(*old(buf))) && frame_payload(buf_contents(*old(buf))).len() < 4
                ==> r matches Err(Error::BincodeError(_)),
            has_frame(buf_contents(*old(buf))) && frame_payload(buf_contents(*old(buf))).len() >= 4
                && message_of_payload(frame_payload(buf_contents(*old(buf)))) is None ==> (r matches Err(
                Error::UnknownVariant(t),
            ) && t == le_u32_value(frame_payload(buf_contents(*old(buf))))),
    {
        let len = buf_len(buf);
        if len < PREFIX_LEN {
            return Ok(None);
        }
        let message_len = peek_u32(buf) as usize;
        if len - PREFIX_LEN < message_len {
            return Ok(None);
        }
        let ghost s = buf_contents(*buf);
        let mut payload = split_front(buf, PREFIX_LEN + message_len);
        let _prefix = split_front(&mut payload, PREFIX_LEN);
        assert(buf_contents(payload) =~= s.subrange(PREFIX_LEN as int, PREFIX_LEN + message_len));
        match deserialize_u32(&payload) {
            Ok(tag) => {
                if tag == 0 {
                    Ok(Some(Message::Ping))
                } else if tag == 1 {
                    Ok(Some(Message::Pong))
                } else {
                    Err(Error::UnknownVariant(tag))
                }
            },
            Err(e) => Err(Error::BincodeError(e)),
        }
    }
}

impl Codec {
    /// Appends the frame of `item` to `buf`: the payload's length, then the
    /// payload.
    pub fn encode(&mut self, item: Message, buf: &mut BytesMut) -> (r: Result<(), Error>)
        requires
            buf_contents(*old(buf)).len() + 8 <= isize::MAX,
        ensures
            r is Ok,
            buf_contents(*final(buf)) == buf_contents(*old(buf)) + frame_of(item),
    {
        let tag: u32 = match item {
            Message::Ping => 0,
            Message::Pong => 1,
        };
        let bytes = match serialize_u32(tag) {
            Ok(bytes) => bytes,
            Err(e) => {
                return Err(Error::BincodeError(e));
            },
        };
        reserve(buf, PREFIX_LEN + bytes.len());
        put_u32(buf, bytes.len() as u32);
        put_slice(buf, bytes.as_slice());
        assert(bytes@ == payload_of(item));
        Ok(())
    }
}

/// Decoding the frame of any message, with any bytes after it, yields that
/// message and leaves exactly the bytes after it; with nothing after it the
/// buffer is left empty.
pub proof fn lemma_round_trip(m: Message, rest: Seq<u8>)
    ensures
        decode_step(frame_of(m) + rest) == (Decoded::Frame(m), rest),
        decode_step(frame_of(m)) == (Decoded::Frame(m), Seq::<u8>::empty()),
{
    lemma_frame_bytes(m);
    let s = frame_of(m) + rest;
    assert(s.subrange(8, s.len() as int) =~= rest);
    assert(s.subrange(4, 8) =~= payload_of(m));
    assert(frame_of(m) + Seq::<u8>::empty() =~= frame_of(m));
}

/// Fed one byte at a time, the decoder reports an incomplete frame on every
/// strict prefix of a frame and leaves it buffered; the byte that completes
/// the frame yields its message.
pub proof fn lemma_partial_frame(m: Message, k: int)
    requires
        0 <= k <= frame_of(m).len(),
    ensures
        k < frame_of(m).len() ==> decode_step(frame_of(m).take(k)) == (
        Decoded::Incomplete,
        frame_of(m).take(k),
        ),
        k == frame_of(m).len() ==> decode_step(frame_of(m).take(k)) == (
        Decoded::Frame(m),
        Seq::<u8>::empty(),
        ),
{
    lemma_frame_bytes(m);
    lemma_round_trip(m, Seq::<u8>::empty());
    assert(frame_of(m).take(frame_of(m).len() as int) =~= frame_of(m));
}

/// Decoding the frames of three messages from one buffer yields them in the
/// order they were written, each step leaving exactly the frames after it.
pub proof fn lemma_frames_in_order(m1: Message, m2: Message, m3: Message)
    ensures
        decode_step(frame_of(m1) + frame_of(m2) + frame_of(m3)) == (
        Decoded::Frame(m1),
        frame_of(m2) + frame_of(m3),
        ),
        decode_step(frame_of(m2) + frame_of(m3)) == (Decoded::Frame(m2), frame_of(m3)),
        decode_step(frame_of(m3)) == (Decoded::Frame(m3), Seq::<u8>::empty()),
{
    lemma_round_trip(m1, frame_of(m2) + frame_of(m3));
    assert(frame_of(m1) + frame_of(m2) + frame_of(m3) =~= frame_of(m1) + (frame_of(m2)
        + frame_of(m3)));
    lemma_round_trip(m2, frame_of(m3));
    lemma_round_trip(m3, Seq::<u8>::empty());
}

/// The frame of a message is eight bytes: a prefix that declares four, then
/// the variant index.
proof fn lemma_frame_bytes(m: Message)
    ensures
        frame_of(m).len() == 8,
        frame_of(m).take(4) == seq![0u8, 0u8, 0u8, 4u8],
        frame_of(m).subrange(4, 8) == payload_of(m),
        payload_of(m).len() == 4,
        message_of_payload(payload_of(m)) == Some(m),
        forall|s: Seq<u8>| s.len() >= 4 && s.take(4) == frame_of(m).take(4) ==> declared_len(s) == 4,
{
    assert(frame_of(m).take(4) =~= seq![0u8, 0u8, 0u8, 4u8]);
    assert(frame_of(m).subrange(4, 8) =~= payload_of(m));
    assert forall|s: Seq<u8>| s.len() >= 4 && s.take(4) == frame_of(m).take(4) implies declared_len(
        s,
    ) == 4 by {
        assert(s[0] == s.take(4)[0] && s[1] == s.take(4)[1] && s[2] == s.take(4)[2] && s[3]
            == s.take(4)[3]);
    }
}

} // verus!

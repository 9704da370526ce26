//! Binary framing of relay messages.
//!
//! A frame is a two-byte type flag (big-endian), the total frame length as a
//! little-endian `u32` (header included), a four-byte random nonce and the
//! UTF-8 payload.

use vstd::prelude::*;
use vstd::slice::{slice_subrange, slice_to_vec};
use vstd::utf8::{decode_utf8, encode_utf8, encode_utf8_decode_utf8, encode_utf8_valid_utf8, valid_utf8};
use bytes::BytesMut;

verus! {

/// Type flag of a frame that carries a share or weak-block record.
pub const FLAG_SHARE: u16 = 0xfe01;

/// Type flag of a frame that carries the shared authentication secret.
pub const FLAG_AUTH: u16 = 0xef01;

/// Length of the fixed frame header: flag, length and nonce.
pub const HEADER_LEN: usize = 10;

/// A message exchanged with a receiver.
#[derive(Debug, Clone, PartialEq, Eq)]
pub enum RelayMessage {
    ShareMessage { data: String },
    AuthMessage { password: String },
}

/// The abstract value of a [`RelayMessage`]: its kind and its payload text.
pub enum MessageView {
    Share(Seq<char>),
    Auth(Seq<char>),
}

impl View for RelayMessage {
    type V = MessageView;

    open spec fn view(&self) -> MessageView {
        match self {
            RelayMessage::ShareMessage { data } => MessageView::Share(data@),
            RelayMessage::AuthMessage { password } => MessageView::Auth(password@),
        }
    }
}

impl RelayMessage {
    /// A copy of the message.
    pub fn duplicate(&self) -> (r: RelayMessage)
        ensures
            r@ == self@,
    {
        match self {
            RelayMessage::ShareMessage { data } => RelayMessage::ShareMessage { data: data.clone() },
            RelayMessage::AuthMessage { password } => RelayMessage::AuthMessage {
                password: password.clone(),
            },
        }
    }
}

/// Why a buffered frame could not be decoded.
#[derive(Debug, Clone, Copy, PartialEq, Eq, Structural)]
pub enum CodecError {
    /// The type flag is neither the share flag nor the auth flag.
    UnknownFlag,
    /// The declared frame length is shorter than the header.
    ShortLength,
    /// The payload is not valid UTF-8.
    InvalidUtf8,
}

pub open spec fn flag_of(m: MessageView) -> u16 {
    match m {
        MessageView::Share(_) => FLAG_SHARE,
        MessageView::Auth(_) => FLAG_AUTH,
    }
}

pub open spec fn payload_chars(m: MessageView) -> Seq<char> {
    match m {
        MessageView::Share(s) => s,
        MessageView::Auth(s) => s,
    }
}

pub open spec fn payload_bytes(m: MessageView) -> Seq<u8> {
    encode_utf8(payload_chars(m))
}

/// The message of kind `flag` whose payload is `text`.
pub open spec fn message_of(flag: u16, text: Seq<char>) -> MessageView {
    if flag == FLAG_SHARE {
        MessageView::Share(text)
    } else {
        MessageView::Auth(text)
    }
}

/// The length field of the frame of `m`.
pub open spec fn frame_len(m: MessageView) -> int {
    HEADER_LEN + payload_bytes(m).len()
}

/// A message whose frame length fits the `u32` length field.
pub open spec fn encodable(m: MessageView) -> bool {
    frame_len(m) <= u32::MAX
}

pub open spec fn be16(x: u16) -> Seq<u8> {
    seq![(x >> 8u16) as u8, (x & 0xffu16) as u8]
}

pub open spec fn le32(x: u32) -> Seq<u8> {
    seq![
        (x & 0xffu32) as u8,
        ((x >> 8u32) & 0xffu32) as u8,
        ((x >> 16u32) & 0xffu32) as u8,
        (x >> 24u32) as u8,
    ]
}

pub open spec fn be16_value(b0: u8, b1: u8) -> u16 {
    ((b0 as u16) << 8u16) | (b1 as u16)
}

pub open spec fn le32_value(b0: u8, b1: u8, b2: u8, b3: u8) -> u32 {
    (b0 as u32) | ((b1 as u32) << 8u32) | ((b2 as u32) << 16u32) | ((b3 as u32) << 24u32)
}

/// The bytes of the frame of `m` with the given nonce.
pub open spec fn frame_of(m: MessageView, nonce: u32) -> Seq<u8> {
    be16(flag_of(m)) + le32(frame_len(m) as u32) + le32(nonce) + payload_bytes(m)
}

/// The type flag at the start of a buffer of at least two bytes.
pub open spec fn flag_at(b: Seq<u8>) -> u16 {
    be16_value(b[0], b[1])
}

/// The length field of a buffer of at least six bytes.
pub open spec fn declared_len(b: Seq<u8>) -> int {
    le32_value(b[2], b[3], b[4], b[5]) as int
}

/// The buffer holds a whole frame: the header and as many bytes as it declares.
pub open spec fn frame_ready(b: Seq<u8>) -> bool {
    b.len() >= HEADER_LEN && b.len() >= declared_len(b)
}

/// The outcome of decoding the start of buffer `b`: `Ok(None)` while more
/// input is needed, else the message and the number of bytes it takes.
pub open spec fn decode_spec(b: Seq<u8>) -> Result<Option<(MessageView, int)>, CodecError> {
    if !frame_ready(b) {
        Ok(None)
    } else if flag_at(b) != FLAG_SHARE && flag_at(b) != FLAG_AUTH {
        Err(CodecError::UnknownFlag)
    } else if declared_len(b) < HEADER_LEN {
        Err(CodecError::ShortLength)
    } else if !valid_utf8(b.subrange(HEADER_LEN as int, declared_len(b))) {
        Err(CodecError::InvalidUtf8)
    } else {
        Ok(
            Some(
                (
                    message_of(
                        flag_at(b),
                        decode_utf8(b.subrange(HEADER_LEN as int, declared_len(b))),
                    ),
                    declared_len(b),
                ),
            ),
        )
    }
}

/// The abstract value of a decode result that also reports the bytes taken.
pub open spec fn frame_result_view(r: Result<Option<(RelayMessage, usize)>, CodecError>) -> Result<
    Option<(MessageView, int)>,
    CodecError,
> {
    match r {
        Ok(Some((m, n))) => Ok(Some((m@, n as int))),
        Ok(None) => Ok(None),
        Err(e) => Err(e),
    }
}

/// The abstract value of a decode result.
pub open spec fn result_view(r: Result<Option<RelayMessage>, CodecError>) -> Result<
    Option<MessageView>,
    CodecError,
> {
    match r {
        Ok(Some(m)) => Ok(Some(m@)),
        Ok(None) => Ok(None),
        Err(e) => Err(e),
    }
}

/// `decode_spec` without the count of bytes taken.
pub open spec fn decoded_message(b: Seq<u8>) -> Result<Option<MessageView>, CodecError> {
    match decode_spec(b) {
        Ok(Some((m, _))) => Ok(Some(m)),
        Ok(None) => Ok(None),
        Err(e) => Err(e),
    }
}

/// What is left in the buffer after decoding from `b`.
pub open spec fn remaining_after_decode(b: Seq<u8>) -> Seq<u8> {
    match decode_spec(b) {
        Ok(Some((_, n))) => b.skip(n),
        _ => b,
    }
}

#[verifier::external_type_specification]
#[verifier::external_body]
pub struct ExBytesMut(BytesMut);

/// The bytes held by a `BytesMut` buffer, in order.
pub uninterp spec fn buffer_bytes(b: BytesMut) -> Seq<u8>;

/// Relies on `BytesMut`'s `Deref` to `[u8]`: the slice is the buffered bytes.
#[verifier::external_body]
fn buffer_slice(b: &BytesMut) -> (r: &[u8])
    ensures
        r@ == buffer_bytes(*b),
{
    &b[..]
}

/// Relies on `BytesMut::extend_from_slice`: appends the slice, growing the
/// buffer as needed (it panics only when the length would overflow `usize`).
#[verifier::external_body]
fn buffer_extend(b: &mut BytesMut, s: &[u8])
    requires
        buffer_bytes(*old(b)).len() + s@.len() <= usize::MAX,
    ensures
        buffer_bytes(*final(b)) == buffer_bytes(*old(b)) + s@,
{
    b.extend_from_slice(s)
}

/// Relies on `BytesMut::advance`: drops the first `n` bytes (it panics when
/// `n` exceeds the length).
#[verifier::external_body]
fn buffer_advance(b: &mut BytesMut, n: usize)
    requires
        n <= buffer_bytes(*old(b)).len(),
    ensures
        buffer_bytes(*final(b)) == buffer_bytes(*old(b)).skip(n as int),
{
    b.advance(n)
}

/// Relies on `rand::random`: any `u32`, from the thread-local generator.
#[verifier::external_body]
fn random_nonce() -> (r: u32) {
    rand::random::<u32>()
}

/// Relies on `String::from_utf8`: it succeeds exactly on valid UTF-8, and the
/// string then holds the decoded characters.
#[verifier::external_body]
pub(crate) fn string_from_utf8(v: Vec<u8>) -> (r: Option<String>)
    ensures
        r is Some <==> valid_utf8(v@),
        r is Some ==> r.unwrap()@ == decode_utf8(v@),
{
    String::from_utf8(v).ok()
}

proof fn lemma_le32_value(x: u32)
    ensures
        le32_value(le32(x)[0], le32(x)[1], le32(x)[2], le32(x)[3]) == x,
{
    assert(((x & 0xffu32) as u8) as u32 | (((((x >> 8u32) & 0xffu32) as u8) as u32) << 8u32) | (((((
    x >> 16u32) & 0xffu32) as u8) as u32) << 16u32) | ((((x >> 24u32) as u8) as u32) << 24u32) == x)
        by (bit_vector);
}

proof fn lemma_be16_value(x: u16)
    ensures
        be16_value(be16(x)[0], be16(x)[1]) == x,
{
    assert(((((x >> 8u16) as u8) as u16) << 8u16) | (((x & 0xffu16) as u8) as u16) == x)
        by (bit_vector);
}

/// Decoding a buffer that starts with the frame of `m` yields `m` and takes
/// exactly that frame, whatever the nonce and whatever bytes follow it.
pub proof fn lemma_round_trip(m: MessageView, nonce: u32, rest: Seq<u8>)
    requires
        encodable(m),
    ensures
        decode_spec(frame_of(m, nonce) + rest) == Ok::<Option<(MessageView, int)>, CodecError>(
            Some((m, frame_len(m))),
        ),
        (frame_of(m, nonce) + rest).skip(frame_len(m)) == rest,
{
    let f = frame_of(m, nonce);
    let b = f + rest;
    let p = payload_bytes(m);
    lemma_le32_value(frame_len(m) as u32);
    lemma_be16_value(flag_of(m));
    assert(f.len() == frame_len(m));
    assert(b[0] == be16(flag_of(m))[0] && b[1] == be16(flag_of(m))[1]);
    assert(b[2] == le32(frame_len(m) as u32)[0] && b[3] == le32(frame_len(m) as u32)[1]);
    assert(b[4] == le32(frame_len(m) as u32)[2] && b[5] == le32(frame_len(m) as u32)[3]);
    assert(declared_len(b) == frame_len(m));
    assert(b.subrange(HEADER_LEN as int, frame_len(m)) =~= p);
    encode_utf8_valid_utf8(payload_chars(m));
    encode_utf8_decode_utf8(payload_chars(m));
    assert(message_of(flag_of(m), payload_chars(m)) == m);
    assert(b.skip(frame_len(m)) =~= rest);
}

/// Every proper prefix of a frame asks for more input: the frame decodes only
/// once all of its bytes are buffered.
pub proof fn lemma_partial_frame_not_ready(m: MessageView, nonce: u32, k: int)
    requires
        encodable(m),
        0 <= k < frame_len(m),
    ensures
        decode_spec(frame_of(m, nonce).take(k)) == Ok::<Option<(MessageView, int)>, CodecError>(
            None,
        ),
        decode_spec(frame_of(m, nonce)) == Ok::<Option<(MessageView, int)>, CodecError>(
            Some((m, frame_len(m))),
        ),
{
    let f = frame_of(m, nonce);
    lemma_round_trip(m, nonce, Seq::empty());
    assert(f + Seq::<u8>::empty() =~= f);
    if k >= HEADER_LEN {
        let t = f.take(k);
        assert(t[2] == f[2] && t[3] == f[3] && t[4] == f[4] && t[5] == f[5]);
        assert(declared_len(t) == declared_len(f));
    }
}

/// A whole frame whose type flag is neither known flag is refused.
pub proof fn lemma_unknown_flag_rejected(b: Seq<u8>)
    requires
        frame_ready(b),
        flag_at(b) != FLAG_SHARE,
        flag_at(b) != FLAG_AUTH,
    ensures
        decode_spec(b) == Err::<Option<(MessageView, int)>, CodecError>(CodecError::UnknownFlag),
{
}

/// A whole frame with a known flag whose payload is not UTF-8 is refused.
pub proof fn lemma_invalid_utf8_rejected(b: Seq<u8>)
    requires
        frame_ready(b),
        flag_at(b) == FLAG_SHARE || flag_at(b) == FLAG_AUTH,
        declared_len(b) >= HEADER_LEN,
        !valid_utf8(b.subrange(HEADER_LEN as int, declared_len(b))),
    ensures
        decode_spec(b) == Err::<Option<(MessageView, int)>, CodecError>(CodecError::InvalidUtf8),
{
}

/// Encodes and decodes relay frames.
pub struct RelayMsgFramer {
    flag_auth: u16,
    flag_data: u16,
}

impl RelayMsgFramer {
    /// The framer carries the two type flags of the protocol.
    pub closed spec fn wf(&self) -> bool {
        self.flag_auth == FLAG_AUTH && self.flag_data == FLAG_SHARE
    }

    pub fn new() -> (r: RelayMsgFramer)
        ensures
            r.wf(),
    {
        RelayMsgFramer { flag_auth: FLAG_AUTH, flag_data: FLAG_SHARE }
    }

    /// The frame of `msg` with the given nonce.
    pub fn encode_frame(&self, msg: &RelayMessage, nonce: u32) -> (r: Vec<u8>)
        requires
            self.wf(),
            encodable(msg@),
        ensures
            r@ == frame_of(msg@, nonce),
    {
        let (flag, text): (u16, &str) = match msg {
            RelayMessage::ShareMessage { data } => (self.flag_data, data.as_str()),
            RelayMessage::AuthMessage { password } => (self.flag_auth, password.as_str()),
        };
        let payload: &[u8] = text.as_bytes();
        assert(payload@ == payload_bytes(msg@));
        let n: usize = payload.len();
        let total: u32 = (n + HEADER_LEN) as u32;
        let mut v: Vec<u8> = Vec::with_capacity(n + HEADER_LEN);
        v.push((flag >> 8u16) as u8);
        v.push((flag & 0xffu16) as u8);
        v.push((total & 0xffu32) as u8);
        v.push(((total >> 8u32) & 0xffu32) as u8);
        v.push(((total >> 16u32) & 0xffu32) as u8);
        v.push((total >> 24u32) as u8);
        v.push((nonce & 0xffu32) as u8);
        v.push(((nonce >> 8u32) & 0xffu32) as u8);
        v.push(((nonce >> 16u32) & 0xffu32) as u8);
        v.push((nonce >> 24u32) as u8);
        let ghost header = v@;
        assert(header =~= be16(flag_of(msg@)) + le32(frame_len(msg@) as u32) + le32(nonce));
        let mut i: usize = 0;
        while i < n
            invariant
                n == payload@.len(),
                i <= n,
                v@ =~= header + payload@.take(i as int),
            decreases n - i,
        {
            v.push(payload[i]);
            i = i + 1;
            assert(v@ =~= header + payload@.take(i as int));
        }
        assert(payload@.take(n as int) =~= payload@);
        v
    }

    /// Appends the frame of `msg`, with the given nonce, to `res`.
    pub fn encode_with_nonce(&self, msg: RelayMessage, nonce: u32, res: &mut BytesMut)
        requires
            self.wf(),
            encodable(msg@),
            buffer_bytes(*old(res)).len() + frame_len(msg@) <= usize::MAX,
        ensures
            buffer_bytes(*final(res)) == buffer_bytes(*old(res)) + frame_of(msg@, nonce),
    {
        let frame = self.encode_frame(&msg, nonce);
        buffer_extend(res, frame.as_slice());
    }

    /// Appends the frame of `msg` to `res`, with a fresh random nonce.
    pub fn encode(&self, msg: RelayMessage, res: &mut BytesMut)
        requires
            self.wf(),
            encodable(msg@),
            buffer_bytes(*old(res)).len() + frame_len(msg@) <= usize::MAX,
        ensures
            exists|nonce: u32|
                buffer_bytes(*final(res)) == buffer_bytes(*old(res)) + #[trigger] frame_of(
                    msg@,
                    nonce,
                ),
    {
        let nonce = random_nonce();
        self.encode_with_nonce(msg, nonce, res);
    }

    /// Decodes the frame at the start of `b`, reporting how many bytes it
    /// takes; `Ok(None)` while the frame is incomplete.
    pub fn decode_frame(&self, b: &[u8]) -> (r: Result<Option<(RelayMessage, usize)>, CodecError>)
        requires
            self.wf(),
        ensures
            frame_result_view(r) == decode_spec(b@),
    {
        let n: usize = b.len();
        if n < HEADER_LEN {
            return Ok(None);
        }
        let len: u32 = (b[2] as u32) | ((b[3] as u32) << 8u32) | ((b[4] as u32) << 16u32) | ((
        b[5] as u32) << 24u32);
        assert(len == declared_len(b@));
        let l: usize = len as usize;
        if n < l {
            return Ok(None);
        }
        let flag: u16 = ((b[0] as u16) << 8u16) | (b[1] as u16);
        assert(flag == flag_at(b@));
        if flag != self.flag_data && flag != self.flag_auth {
            return Err(CodecError::UnknownFlag);
        }
        if l < HEADER_LEN {
            return Err(CodecError::ShortLength);
        }
        let payload: Vec<u8> = slice_to_vec(slice_subrange(b, HEADER_LEN, l));
        assert(payload@ =~= b@.subrange(HEADER_LEN as int, l as int));
        match string_from_utf8(payload) {
            None => Err(CodecError::InvalidUtf8),
            Some(text) => {
                let msg = if flag == self.flag_data {
                    RelayMessage::ShareMessage { data: text }
                } else {
                    RelayMessage::AuthMessage { password: text }
                };
                Ok(Some((msg, l)))
            },
        }
    }

    /// Decodes one message from the start of `bytes` and removes its frame;
    /// leaves the buffer as it is when the frame is incomplete or refused.
    pub fn decode(&self, bytes: &mut BytesMut) -> (r: Result<Option<RelayMessage>, CodecError>)
        requires
            self.wf(),
        ensures
            result_view(r) == decoded_message(buffer_bytes(*old(bytes))),
            buffer_bytes(*final(bytes)) == remaining_after_decode(buffer_bytes(*old(bytes))),
    {
        let r = self.decode_frame(buffer_slice(bytes));
        match r {
            Ok(Some((msg, taken))) => {
                buffer_advance(bytes, taken);
                Ok(Some(msg))
            },
            Ok(None) => Ok(None),
            Err(e) => Err(e),
        }
    }
}

} // verus!

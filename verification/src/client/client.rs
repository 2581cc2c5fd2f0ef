//! The client as one end of a connection: what it has sent, how it frames
//! what it sends, and what it makes of what arrives.

use super::error::ClientError;
use crate::buffer::as_slice;
use crate::buffer::buffer_from;
use crate::buffer::contents;
use crate::crc::crc32;
use crate::crc::crc32_hash;
use crate::endian::get_le;
use crate::endian::le_bytes;
use crate::endian::le_value;
use crate::endian::lemma_le_bytes_len;
use crate::endian::lemma_le_value_bound;
use crate::endian::lemma_pow256_values;
use crate::endian::put_le;
use crate::objects::base::signed;
use crate::objects::message::message_parse;
use crate::objects::message::UnencryptedMessage;
use crate::objects::traits::Deserialize;
use crate::objects::traits::Serialize;
use crate::random::Random;
use bytes::BytesMut;
use vstd::prelude::*;
use vstd::slice::slice_subrange;

verus! {

/// The transport type which used to transport payload.
#[derive(Clone, Copy, Debug, PartialEq, Eq, PartialOrd, Ord, Structural)]
pub enum TransportType {
    /// The lightest protocol. Max length of the payload: `67108860`.
    Abridged,
    /// Max length of the payload: `4294967295`.
    Intermediate,
    /// Can be used with obfuscation enabled to bypass ISP blocks: a payload
    /// is followed by up to 15 bytes of padding.
    PaddedIntermediate,
    /// The basic MTProto transport protocol, with sequence numbers and checksums.
    Full,
}

/// [Client] builder
pub struct ClientBuilder {
    /// Set `TCP_NODELAY`
    _no_delay: bool,
    /// Use UDP Connections
    _use_udp: bool,
    _transport_type: TransportType,
}

impl ClientBuilder {
    /// Whether `TCP_NODELAY` is to be set.
    pub closed spec fn spec_no_delay(&self) -> bool {
        self._no_delay
    }

    /// Whether the connection is to be made over UDP.
    pub closed spec fn spec_use_udp(&self) -> bool {
        self._use_udp
    }

    /// The transport that the client will speak.
    pub closed spec fn spec_transport_type(&self) -> TransportType {
        self._transport_type
    }

    /// Create a new builder
    pub fn new() -> (b: Self)
        ensures
            !b.spec_no_delay(),
            !b.spec_use_udp(),
            b.spec_transport_type() == TransportType::Full,
    {
        Self { _no_delay: false, _use_udp: false, _transport_type: TransportType::Full }
    }

    /// Set `TCP_NODELAY`
    pub fn no_delay(self, no_delay: bool) -> (b: Self)
        ensures
            b.spec_no_delay() == no_delay,
            b.spec_use_udp() == self.spec_use_udp(),
            b.spec_transport_type() == self.spec_transport_type(),
    {
        let mut b = self;
        b._no_delay = no_delay;
        b
    }

    /// Set the transport type. Default: [TransportType::Full]
    pub fn transport_type(self, transport_type: TransportType) -> (b: Self)
        ensures
            b.spec_no_delay() == self.spec_no_delay(),
            b.spec_use_udp() == self.spec_use_udp(),
            b.spec_transport_type() == transport_type,
    {
        let mut b = self;
        b._transport_type = transport_type;
        b
    }

    /// Use UDP Connections
    pub fn use_udp(self, use_udp: bool) -> (b: Self)
        ensures
            b.spec_no_delay() == self.spec_no_delay(),
            b.spec_use_udp() == use_udp,
            b.spec_transport_type() == self.spec_transport_type(),
    {
        let mut b = self;
        b._use_udp = use_udp;
        b
    }

    /// Whether `TCP_NODELAY` is to be set.
    pub fn is_no_delay(&self) -> (b: bool)
        ensures
            b == self.spec_no_delay(),
    {
        self._no_delay
    }

    /// Whether the connection is to be made over UDP.
    pub fn is_udp(&self) -> (b: bool)
        ensures
            b == self.spec_use_udp(),
    {
        self._use_udp
    }

    /// Build the client: nothing has been sent yet, and the first frame will be number 0.
    pub fn build(self) -> (c: Client)
        ensures
            c.transport() == self.spec_transport_type(),
            c.seq_no() == 0,
            !c.is_initialized(),
    {
        Client { builder: self, seq_no: 0, initialized: false }
    }
}

/// What the receiver does next, as a mathematical value.
pub enum Received {
    /// Read exactly this many more bytes of the frame, then ask again.
    Read(nat),
    /// The frame is complete: its payload, or why it has none.
    Done(Result<Seq<u8>, ClientError>),
}

/// What the receiver does next.
pub enum RecvStep {
    /// Read exactly this many more bytes of the frame, then ask again.
    Read(usize),
    /// The frame is complete: its payload, or why it has none.
    Done(Result<BytesMut, ClientError>),
}

/// What the receiver of messages does next, as a mathematical value.
pub enum ReceivedMessage {
    /// Read exactly this many more bytes of the frame, then ask again.
    Read(nat),
    /// The frame is complete: the key identifier, the message identifier
    /// and the payload of the message in it, or why it has none.
    Done(Result<(i64, i64, Seq<u8>), ClientError>),
}

/// What the receiver of messages does next.
pub enum RecvMessage {
    /// Read exactly this many more bytes of the frame, then ask again.
    Read(usize),
    /// The frame is complete: the message in it, or why it has none.
    Done(Result<UnencryptedMessage, ClientError>),
}

impl View for RecvMessage {
    type V = ReceivedMessage;

    open spec fn view(&self) -> ReceivedMessage {
        match self {
            RecvMessage::Read(n) => ReceivedMessage::Read(*n as nat),
            RecvMessage::Done(Ok(message)) => ReceivedMessage::Done(
                Ok(Deserialize::value(message)),
            ),
            RecvMessage::Done(Err(e)) => ReceivedMessage::Done(Err(*e)),
        }
    }
}

/// The message that a frame carries, when the receiver is done with the frame.
pub open spec fn received_message(step: Received) -> ReceivedMessage {
    match step {
        Received::Read(n) => ReceivedMessage::Read(n),
        Received::Done(Err(e)) => ReceivedMessage::Done(Err(e)),
        Received::Done(Ok(payload)) => match message_parse(payload) {
            Ok((message, _)) => ReceivedMessage::Done(Ok(message)),
            Err(e) => ReceivedMessage::Done(Err(ClientError::DeserializeError(e))),
        },
    }
}

impl View for RecvStep {
    type V = Received;

    open spec fn view(&self) -> Received {
        match self {
            RecvStep::Read(n) => Received::Read(*n as nat),
            RecvStep::Done(Ok(payload)) => Received::Done(Ok(contents(*payload))),
            RecvStep::Done(Err(e)) => Received::Done(Err(*e)),
        }
    }
}

impl TransportType {
    /// Returns true if current variant is [TransportType::Full]
    pub fn is_full(&self) -> (b: bool)
        ensures
            b == (*self == TransportType::Full),
    {
        match self {
            TransportType::Full => true,
            _ => false,
        }
    }

    /// The bytes that open a connection, sent once before the first frame.
    pub open spec fn sentinel(&self) -> Seq<u8> {
        match self {
            TransportType::Abridged => seq![0xefu8],
            TransportType::Intermediate => seq![0xeeu8, 0xeeu8, 0xeeu8, 0xeeu8],
            TransportType::PaddedIntermediate => seq![0xddu8, 0xddu8, 0xddu8, 0xddu8],
            TransportType::Full => Seq::empty(),
        }
    }

    /// The bytes that open a connection, sent once before the first frame.
    pub fn init_bytes(&self) -> (v: Vec<u8>)
        ensures
            v@ == self.sentinel(),
    {
        let mut v: Vec<u8> = Vec::new();
        match self {
            TransportType::Abridged => {
                v.push(0xef);
            },
            TransportType::Intermediate => {
                v.push(0xee);
                v.push(0xee);
                v.push(0xee);
                v.push(0xee);
            },
            TransportType::PaddedIntermediate => {
                v.push(0xdd);
                v.push(0xdd);
                v.push(0xdd);
                v.push(0xdd);
            },
            TransportType::Full => {},
        }
        assert(v@ =~= self.sentinel());
        v
    }

    /// Whether the transport can frame a payload of `len` bytes followed by
    /// `pad` bytes of padding. Only the padded transport sends the padding.
    pub open spec fn accepts(&self, len: nat, pad: nat) -> bool {
        match self {
            TransportType::Abridged => len % 4 == 0 && len <= 67_108_860,
            TransportType::Intermediate => len <= 0xffff_ffff,
            TransportType::PaddedIntermediate => len + pad <= 0xffff_ffff,
            TransportType::Full => len + 12 <= 0xffff_ffff,
        }
    }

    /// The frame that carries `data`: the `seq_no`-th frame of a connection,
    /// for the Full transport; followed by `padding`, for the padded one.
    pub open spec fn framed(&self, seq_no: u32, data: Seq<u8>, padding: Seq<u8>) -> Seq<u8> {
        match self {
            TransportType::Abridged => if data.len() / 4 >= 0x7f {
                seq![0x7fu8] + le_bytes(data.len() / 4, 3) + data
            } else {
                seq![(data.len() / 4) as u8] + data
            },
            TransportType::Intermediate => le_bytes(data.len(), 4) + data,
            TransportType::PaddedIntermediate => le_bytes(data.len() + padding.len(), 4) + data
                + padding,
            TransportType::Full => {
                let body = le_bytes(data.len() + 12, 4) + le_bytes(seq_no as nat, 4) + data;
                body + le_bytes(crc32(body) as nat, 4)
            },
        }
    }

    /// Frames `data`, or refuses a length that the transport cannot carry.
    pub fn frame(&self, seq_no: u32, data: &[u8], padding: &[u8]) -> (r: Result<
        Vec<u8>,
        ClientError,
    >)
        ensures
            match r {
                Ok(f) => self.accepts(data@.len(), padding@.len()) && f@ == self.framed(
                    seq_no,
                    data@,
                    padding@,
                ),
                Err(e) => e == ClientError::InvalidLength && !self.accepts(
                    data@.len(),
                    padding@.len(),
                ),
            },
    {
        let len: usize = data.len();
        let mut payload: Vec<u8> = Vec::new();
        match self {
            TransportType::Abridged => {
                if len % 4 != 0 || len > 67_108_860 {
                    return Err(ClientError::InvalidLength);
                }
                if len >= 508 {
                    payload.push(0x7fu8);
                    put_le(&mut payload, (len / 4) as u128, 3);
                    payload.extend_from_slice(data);
                } else {
                    payload.push((len / 4) as u8);
                    payload.extend_from_slice(data);
                }
                assert(payload@ =~= self.framed(seq_no, data@, padding@));
            },
            TransportType::Intermediate => {
                if len > 0xffff_ffff {
                    return Err(ClientError::InvalidLength);
                }
                put_le(&mut payload, len as u128, 4);
                payload.extend_from_slice(data);
                assert(payload@ =~= self.framed(seq_no, data@, padding@));
            },
            TransportType::PaddedIntermediate => {
                if len > 0xffff_ffff || padding.len() > 0xffff_ffff - len {
                    return Err(ClientError::InvalidLength);
                }
                put_le(&mut payload, (len + padding.len()) as u128, 4);
                payload.extend_from_slice(data);
                payload.extend_from_slice(padding);
                assert(payload@ =~= self.framed(seq_no, data@, padding@));
            },
            TransportType::Full => {
                if len > 0xffff_fff3 {
                    return Err(ClientError::InvalidLength);
                }
                put_le(&mut payload, (len + 12) as u128, 4);
                put_le(&mut payload, seq_no as u128, 4);
                payload.extend_from_slice(data);
                let ghost body = payload@;
                assert(body =~= le_bytes((len + 12) as nat, 4) + le_bytes(seq_no as nat, 4)
                    + data@);
                let sum: u32 = crc32_hash(payload.as_slice());
                put_le(&mut payload, sum as u128, 4);
            },
        }
        Ok(payload)
    }

    /// How long the header of the frame is that starts with `buf`: a frame
    /// of the abridged transport says so in its first byte.
    pub open spec fn header_len(&self, buf: Seq<u8>) -> nat {
        match self {
            TransportType::Abridged => if buf.len() >= 1 && buf[0] == 0x7f {
                4
            } else {
                1
            },
            TransportType::Intermediate => 4,
            TransportType::PaddedIntermediate => 4,
            TransportType::Full => 8,
        }
    }

    /// How long the trailer of a frame is: the checksum of the Full transport.
    pub open spec fn trailer_len(&self) -> nat {
        match self {
            TransportType::Full => 4,
            _ => 0,
        }
    }

    /// How long the frame is whose header `buf` starts with, header and
    /// trailer included; nothing where the header gives a length that no
    /// frame has.
    pub open spec fn frame_len(&self, buf: Seq<u8>) -> Option<nat> {
        match self {
            TransportType::Abridged => if buf[0] == 0x7f {
                Some(4 + 4 * le_value(buf.subrange(1, 4)))
            } else {
                Some(1 + 4 * (buf[0] as nat))
            },
            TransportType::Intermediate => Some(4 + le_value(buf.subrange(0, 4))),
            TransportType::PaddedIntermediate => Some(4 + le_value(buf.subrange(0, 4))),
            TransportType::Full => if le_value(buf.subrange(0, 4)) < 12 {
                None
            } else {
                Some(le_value(buf.subrange(0, 4)))
            },
        }
    }

    /// What a whole frame carries: a checksum that does not match is a
    /// failure, a payload of exactly four bytes is an error code of the
    /// server, anything else is the payload.
    pub open spec fn unframed(&self, frame: Seq<u8>) -> Result<Seq<u8>, ClientError> {
        let payload = frame.subrange(
            self.header_len(frame) as int,
            frame.len() - self.trailer_len(),
        );
        if *self == TransportType::Full && le_value(
            frame.subrange(frame.len() - 4, frame.len() as int),
        ) != crc32(frame.take(frame.len() - 4)) {
            Err(ClientError::Crc32CheckFailed)
        } else if payload.len() == 4 {
            Err(ClientError::ServerError(signed(le_value(payload), 4) as i32))
        } else {
            Ok(payload)
        }
    }

    /// What the receiver does when `buf` is what has arrived of a frame.
    pub open spec fn received(&self, buf: Seq<u8>) -> Received {
        let header = self.header_len(buf);
        if buf.len() < header {
            Received::Read((header - buf.len()) as nat)
        } else {
            match self.frame_len(buf) {
                None => Received::Done(Err(ClientError::InvalidLength)),
                Some(total) => if total > usize::MAX {
                    Received::Done(Err(ClientError::InvalidLength))
                } else if buf.len() < total {
                    Received::Read((total - buf.len()) as nat)
                } else {
                    Received::Done(self.unframed(buf.take(total as int)))
                },
            }
        }
    }

    /// Decides what to do when `buf` is what has arrived of a frame: read
    /// more of it, or hand out what it carries.
    pub fn receive(&self, buf: &[u8]) -> (step: RecvStep)
        ensures
            step@ == self.received(buf@),
    {
        proof {
            lemma_pow256_values();
        }
        let header: usize = match self {
            TransportType::Abridged => if buf.len() >= 1 && buf[0] == 0x7f {
                4
            } else {
                1
            },
            TransportType::Intermediate => 4,
            TransportType::PaddedIntermediate => 4,
            TransportType::Full => 8,
        };
        if buf.len() < header {
            return RecvStep::Read(header - buf.len());
        }
        let total: u64 = match self {
            TransportType::Abridged => if buf[0] == 0x7f {
                proof {
                    lemma_le_value_bound(buf@.subrange(1, 4));
                }
                4 + 4 * (get_le(slice_subrange(buf, 1, 4)) as u64)
            } else {
                1 + 4 * (buf[0] as u64)
            },
            TransportType::Intermediate | TransportType::PaddedIntermediate => {
                proof {
                    lemma_le_value_bound(buf@.subrange(0, 4));
                }
                4 + get_le(slice_subrange(buf, 0, 4)) as u64
            },
            TransportType::Full => {
                proof {
                    lemma_le_value_bound(buf@.subrange(0, 4));
                }
                let t: u64 = get_le(slice_subrange(buf, 0, 4)) as u64;
                if t < 12 {
                    return RecvStep::Done(Err(ClientError::InvalidLength));
                }
                t
            },
        };
        if total > usize::MAX as u64 {
            return RecvStep::Done(Err(ClientError::InvalidLength));
        }
        let total: usize = total as usize;
        if buf.len() < total {
            return RecvStep::Read(total - buf.len());
        }
        let frame = slice_subrange(buf, 0, total);
        assert(frame@ =~= buf@.take(total as int));
        assert(self.header_len(frame@) == header);
        let trailer: usize = match self {
            TransportType::Full => 4,
            _ => 0,
        };
        if self.is_full() {
            let sum: u32 = crc32_hash(slice_subrange(frame, 0, total - 4));
            proof {
                lemma_le_value_bound(frame@.subrange(total - 4, total as int));
                assert(frame@.subrange(0, total - 4) =~= frame@.take(total - 4));
            }
            let sent: u128 = get_le(slice_subrange(frame, total - 4, total));
            if sent != sum as u128 {
                return RecvStep::Done(Err(ClientError::Crc32CheckFailed));
            }
        }
        let payload = slice_subrange(frame, header, total - trailer);
        if payload.len() == 4 {
            proof {
                lemma_le_value_bound(payload@);
            }
            let u: u128 = get_le(payload);
            let code: i32 = if u < 0x8000_0000 {
                u as i32
            } else {
                -((0xffff_ffffu128 - u) as i32) - 1
            };
            return RecvStep::Done(Err(ClientError::ServerError(code)));
        }
        RecvStep::Done(Ok(buffer_from(payload)))
    }
}

impl TransportType {
    /// What the receiver gets of a payload that was framed with padding:
    /// the payload, with the padding where the padded transport sent it.
    pub open spec fn carried(&self, data: Seq<u8>, padding: Seq<u8>) -> Seq<u8> {
        match self {
            TransportType::PaddedIntermediate => data + padding,
            _ => data,
        }
    }

    /// The length of a frame: header, payload, padding and trailer.
    pub proof fn lemma_framed_len(&self, seq_no: u32, data: Seq<u8>, padding: Seq<u8>)
        requires
            self.accepts(data.len(), padding.len()),
        ensures
            self.framed(seq_no, data, padding).len() == self.header_len(
                self.framed(seq_no, data, padding),
            ) + self.carried(data, padding).len() + self.trailer_len(),
            self.frame_len(self.framed(seq_no, data, padding)) == Some(
                self.framed(seq_no, data, padding).len(),
            ),
            self.framed(seq_no, data, padding).subrange(
                self.header_len(self.framed(seq_no, data, padding)) as int,
                self.framed(seq_no, data, padding).len() - self.trailer_len(),
            ) == self.carried(data, padding),
    {
        let f = self.framed(seq_no, data, padding);
        lemma_pow256_values();
        match self {
            TransportType::Abridged => {
                if data.len() / 4 >= 0x7f {
                    lemma_le_bytes_len(data.len() / 4, 3);
                    crate::endian::lemma_le_value_of_bytes(data.len() / 4, 3);
                    assert(f[0] == 0x7f);
                    assert(f.subrange(1, 4) =~= le_bytes(data.len() / 4, 3));
                    assert(f.subrange(4, f.len() as int) =~= data);
                } else {
                    assert(f[0] == (data.len() / 4) as u8);
                    assert(f.subrange(1, f.len() as int) =~= data);
                }
            },
            TransportType::Intermediate => {
                lemma_le_bytes_len(data.len(), 4);
                crate::endian::lemma_le_value_of_bytes(data.len(), 4);
                assert(f.subrange(0, 4) =~= le_bytes(data.len(), 4));
                assert(f.subrange(4, f.len() as int) =~= data);
            },
            TransportType::PaddedIntermediate => {
                lemma_le_bytes_len(data.len() + padding.len(), 4);
                crate::endian::lemma_le_value_of_bytes(data.len() + padding.len(), 4);
                assert(f.subrange(0, 4) =~= le_bytes(data.len() + padding.len(), 4));
                assert(f.subrange(4, f.len() as int) =~= data + padding);
            },
            TransportType::Full => {
                let body = le_bytes(data.len() + 12, 4) + le_bytes(seq_no as nat, 4) + data;
                lemma_le_bytes_len(data.len() + 12, 4);
                lemma_le_bytes_len(seq_no as nat, 4);
                lemma_le_bytes_len(crc32(body) as nat, 4);
                crate::endian::lemma_le_value_of_bytes(data.len() + 12, 4);
                assert(f.subrange(0, 4) =~= le_bytes(data.len() + 12, 4));
                assert(f.subrange(8, f.len() - 4) =~= data);
            },
        }
    }

    /// The checksum of a frame of the Full transport is the CRC32 of what
    /// stands before it: the length, the sequence number and the payload.
    /// The receiver finds that checksum when it reads the frame back.
    pub proof fn lemma_full_checksum(seq_no: u32, data: Seq<u8>)
        requires
            TransportType::Full.accepts(data.len(), 0),
        ensures
            ({
                let f = TransportType::Full.framed(seq_no, data, Seq::empty());
                let body = le_bytes(data.len() + 12, 4) + le_bytes(seq_no as nat, 4) + data;
                &&& f.take(f.len() - 4) == body
                &&& le_value(f.subrange(f.len() - 4, f.len() as int)) == crc32(body)
                &&& TransportType::Full.unframed(f) != Err::<Seq<u8>, ClientError>(
                    ClientError::Crc32CheckFailed,
                )
            }),
    {
        let f = TransportType::Full.framed(seq_no, data, Seq::empty());
        let body = le_bytes(data.len() + 12, 4) + le_bytes(seq_no as nat, 4) + data;
        lemma_pow256_values();
        lemma_le_bytes_len(crc32(body) as nat, 4);
        crate::endian::lemma_le_value_of_bytes(crc32(body) as nat, 4);
        assert(f.take(f.len() - 4) =~= body);
        assert(f.subrange(f.len() - 4, f.len() as int) =~= le_bytes(crc32(body) as nat, 4));
    }

    /// A frame that arrives whole gives back what it carries, unless that is
    /// four bytes long: then it is read as an error code of the server.
    pub proof fn lemma_frame_round_trip(&self, seq_no: u32, data: Seq<u8>, padding: Seq<u8>)
        requires
            self.accepts(data.len(), padding.len()),
            self.framed(seq_no, data, padding).len() <= usize::MAX,
        ensures
            self.received(self.framed(seq_no, data, padding)) == Received::Done(
                if self.carried(data, padding).len() == 4 {
                    Err(
                        ClientError::ServerError(
                            signed(le_value(self.carried(data, padding)), 4) as i32,
                        ),
                    )
                } else {
                    Ok(self.carried(data, padding))
                },
            ),
    {
        let f = self.framed(seq_no, data, padding);
        self.lemma_framed_len(seq_no, data, padding);
        assert(f.take(f.len() as int) =~= f);
        if *self == TransportType::Full {
            Self::lemma_full_checksum(seq_no, data);
        }
    }
}

/// The identifier of a message sent at `seconds` after the Unix epoch: the
/// seconds, shifted left by 32 bits in a 64-bit word.
pub open spec fn message_id_at(seconds: u64) -> u64 {
    ((seconds % 0x1_0000_0000) * 0x1_0000_0000) as u64
}

/// An unencrypted message on the wire: the key identifier zero, the message
/// identifier, the length of the body in four bytes, and the body.
pub open spec fn message_wire(message_id: u64, body: Seq<u8>) -> Seq<u8> {
    le_bytes(0, 8) + le_bytes(message_id as nat, 8) + le_bytes(body.len() % 0x1_0000_0000, 4)
        + body
}

/// Wraps `body` as an unencrypted message with the given identifier.
pub fn unencrypted_message(message_id: u64, body: &[u8]) -> (d: Vec<u8>)
    ensures
        d@ == message_wire(message_id, body@),
{
    let mut d: Vec<u8> = Vec::new();
    put_le(&mut d, 0, 8);
    put_le(&mut d, message_id as u128, 8);
    put_le(&mut d, ((body.len() as u64) % 0x1_0000_0000) as u128, 4);
    d.extend_from_slice(body);
    assert(d@ =~= message_wire(message_id, body@));
    d
}

/// A low api level client: what one end of a connection knows of it.
pub struct Client {
    /// The builder
    builder: ClientBuilder,
    /// The sequence number for this connection: the first packet sent is numbered 0, the next one 1, etc.
    seq_no: u32,
    /// Whether the opening bytes of the transport have been sent.
    initialized: bool,
}

impl Client {
    /// The transport that the client speaks.
    pub closed spec fn transport(&self) -> TransportType {
        self.builder._transport_type
    }

    /// The number of the next frame.
    pub closed spec fn seq_no(&self) -> u32 {
        self.seq_no
    }

    /// Whether the opening bytes of the transport have been sent.
    pub closed spec fn is_initialized(&self) -> bool {
        self.initialized
    }

    /// The transport that the client speaks.
    pub fn transport_type(&self) -> (t: TransportType)
        ensures
            t == self.transport(),
    {
        self.builder._transport_type
    }

    /// Gen data from payload: the frame that carries `data`. The padded
    /// transport adds up to 15 random bytes.
    pub fn gen_payload(&self, data: Vec<u8>) -> (r: Result<Vec<u8>, ClientError>)
        ensures
            self.transport().accepts(data@.len(), 15) ==> r is Ok,
            match r {
                Ok(f) => exists|padding: Seq<u8>|
                    padding.len() <= 15 && self.transport().accepts(data@.len(), padding.len())
                        && f@ == #[trigger] self.transport().framed(self.seq_no(), data@, padding),
                Err(e) => e == ClientError::InvalidLength,
            },
    {
        let mut padding: Vec<u8> = Vec::new();
        if let TransportType::PaddedIntermediate = self.builder._transport_type {
            let mut random = Random::new();
            let count: u32 = random.gen_u32() % 16;
            let mut i: u32 = 0;
            while i < count
                invariant
                    i <= count <= 15,
                    padding@.len() == i,
                decreases count - i,
            {
                padding.push(random.gen_u8());
                i = i + 1;
            }
        }
        let r = self.builder._transport_type.frame(
            self.seq_no,
            data.as_slice(),
            padding.as_slice(),
        );
        proof {
            if r is Ok {
                assert(r.unwrap()@ == self.transport().framed(self.seq_no(), data@, padding@));
            }
        }
        r
    }

    /// The bytes to send for `data` at `seconds` after the Unix epoch: the
    /// opening bytes of the transport before the first frame, then the frame
    /// of the message. The Full transport counts the frame.
    pub fn send_unencrypted<S: Serialize>(&mut self, data: &S, seconds: u64) -> (r: Result<
        Vec<u8>,
        ClientError,
    >)
        ensures
            final(self).transport() == old(self).transport(),
            old(self).transport().accepts(20 + data.wire().len(), 15) ==> r is Ok,
            match r {
                Ok(out) => {
                    &&& final(self).is_initialized()
                    &&& final(self).seq_no() == if old(self).transport() == TransportType::Full {
                        if old(self).seq_no() == u32::MAX {
                            0u32
                        } else {
                            (old(self).seq_no() + 1) as u32
                        }
                    } else {
                        old(self).seq_no()
                    }
                    &&& exists|padding: Seq<u8>|
                        padding.len() <= 15 && out@ == (if old(self).is_initialized() {
                            Seq::<u8>::empty()
                        } else {
                            old(self).transport().sentinel()
                        }) + #[trigger] old(self).transport().framed(
                            old(self).seq_no(),
                            message_wire(message_id_at(seconds), data.wire()),
                            padding,
                        )
                },
                Err(e) => e == ClientError::InvalidLength && *final(self) == *old(self),
            },
    {
        let body = data.serialize_to_vec();
        let message_id: u64 = (seconds % 0x1_0000_0000) * 0x1_0000_0000;
        let d = unencrypted_message(message_id, body.as_slice());
        proof {
            lemma_le_bytes_len(0, 8);
            lemma_le_bytes_len(message_id as nat, 8);
            lemma_le_bytes_len(body@.len() % 0x1_0000_0000, 4);
        }
        let frame = match self.gen_payload(d) {
            Ok(f) => f,
            Err(e) => {
                return Err(e);
            },
        };
        let ghost padding = choose|padding: Seq<u8>|
            padding.len() <= 15 && frame@ == #[trigger] self.transport().framed(
                self.seq_no(),
                d@,
                padding,
            );
        let mut out: Vec<u8> = Vec::new();
        if !self.initialized {
            out = self.builder._transport_type.init_bytes();
            self.initialized = true;
        }
        let ghost prefix = out@;
        out.extend_from_slice(frame.as_slice());
        if self.builder._transport_type.is_full() {
            self.seq_no = self.seq_no.wrapping_add(1);
        }
        proof {
            assert(d@ == message_wire(message_id_at(seconds), data.wire()));
            assert(out@ == prefix + old(self).transport().framed(
                old(self).seq_no(),
                message_wire(message_id_at(seconds), data.wire()),
                padding,
            ));
        }
        Ok(out)
    }

    /// Receive unencrypted message: decides what to do when `buf` is what
    /// has arrived of a frame, and reads the message out of a frame that is
    /// complete.
    pub fn recv_unecrypted(&self, buf: &[u8]) -> (step: RecvMessage)
        ensures
            step@ == received_message(
                if self.is_initialized() {
                    self.transport().received(buf@)
                } else {
                    Received::Done(Err(ClientError::NotInitialized))
                },
            ),
    {
        match self.recv(buf) {
            RecvStep::Read(n) => RecvMessage::Read(n),
            RecvStep::Done(Err(e)) => RecvMessage::Done(Err(e)),
            RecvStep::Done(Ok(payload)) => match UnencryptedMessage::deserialize_from_bytes(
                as_slice(&payload),
            ) {
                Ok(message) => RecvMessage::Done(Ok(message)),
                Err(e) => RecvMessage::Done(Err(ClientError::DeserializeError(e))),
            },
        }
    }

    /// Decides what to do when `buf` is what has arrived of a frame: read
    /// more of it, or hand out what it carries. A client that has sent
    /// nothing yet receives nothing.
    pub fn recv(&self, buf: &[u8]) -> (step: RecvStep)
        ensures
            step@ == if self.is_initialized() {
                self.transport().received(buf@)
            } else {
                Received::Done(Err(ClientError::NotInitialized))
            },
    {
        if !self.initialized {
            return RecvStep::Done(Err(ClientError::NotInitialized));
        }
        self.builder._transport_type.receive(buf)
    }
}

} // verus!

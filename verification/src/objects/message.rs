//! The envelope of a message that is sent before there is a key.

use super::base::signed;
use super::error::DeserializeError;
use super::reader::Reader;
use super::traits::Deserialize;
use super::traits::OptDeserialize;
use crate::buffer::as_slice;
use crate::buffer::buffer_from;
use crate::buffer::contents;
use crate::endian::le_bytes;
use crate::endian::lemma_le_bytes_len;
use crate::endian::lemma_pow256_values;
use bytes::BytesMut;
use vstd::prelude::*;

verus! {

/// Message struct
#[derive(Clone, Debug)]
pub struct UnencryptedMessage {
    /// The auth key
    pub auth_key_id: i64,
    /// Message id
    pub message_id: i64,
    /// Payload
    pub payload: BytesMut,
}

impl UnencryptedMessage {
    /// Deserialize the message payload
    pub fn deserialize_payload<T: Deserialize>(&self) -> (r: Result<T, DeserializeError>)
        ensures
            match (r, T::parse(contents(self.payload))) {
                (Ok(v), Ok((m, _))) => v.value() == m,
                (Err(e), Err(f)) => e == f,
                _ => false,
            },
    {
        T::deserialize_from_bytes(as_slice(&self.payload))
    }

    /// Deserialize the message payload
    pub fn opt_deserialize_payload<T: OptDeserialize>(&self) -> (r: Result<
        Option<T>,
        DeserializeError,
    >)
        ensures
            match (r, T::opt_parse(contents(self.payload))) {
                (Ok(Some(v)), Ok((Some(m), _))) => OptDeserialize::value(&v) == m,
                (Ok(None), Ok((None, _))) => true,
                (Err(e), Err(f)) => e == f,
                _ => false,
            },
    {
        T::opt_deserialize_from_bytes(as_slice(&self.payload))
    }
}

/// The message that `input` starts with: the identifier of the key, the
/// identifier of the message, and the payload, whose length stands before it
/// in four bytes.
pub open spec fn message_parse(input: Seq<u8>) -> Result<
    ((i64, i64, Seq<u8>), nat),
    DeserializeError,
> {
    match <(i64, (i64, u32))>::parse(input) {
        Err(e) => Err(e),
        Ok(((auth_key_id, (message_id, len)), n)) => if input.len() < n + len {
            Err(DeserializeError::IoError)
        } else {
            Ok(
                (
                    (auth_key_id, message_id, input.subrange(n as int, n + len)),
                    (n + len) as nat,
                ),
            )
        },
    }
}

impl Deserialize for UnencryptedMessage {
    type Value = (i64, i64, Seq<u8>);

    open spec fn value(&self) -> (i64, i64, Seq<u8>) {
        (self.auth_key_id, self.message_id, contents(self.payload))
    }

    open spec fn parse(input: Seq<u8>) -> Result<((i64, i64, Seq<u8>), nat), DeserializeError> {
        message_parse(input)
    }

    fn deserialize<'a>(data: &mut Reader<'a>) -> (r: Result<Self, DeserializeError>) {
        let ghost input = data.remaining();
        let (auth_key_id, (message_id, message_len)) = match <(i64, (i64, u32))>::deserialize(
            data,
        ) {
            Ok(head) => head,
            Err(e) => {
                return Err(e);
            },
        };
        let ghost n = <(i64, (i64, u32))>::parse(input).unwrap().1;
        if message_len as u64 > usize::MAX as u64 {
            return Err(DeserializeError::IoError);
        }
        let payload = match data.read_exact(message_len as usize) {
            Ok(bytes) => bytes,
            Err(e) => {
                return Err(e);
            },
        };
        proof {
            assert(payload@ =~= input.subrange(n as int, n + message_len));
            assert(input.skip(n as int).skip(message_len as int) =~= input.skip(
                n + message_len,
            ));
        }
        Ok(Self { auth_key_id, message_id, payload: buffer_from(payload) })
    }
}

/// A message that was wrapped for sending is read back as it was: with the
/// key identifier zero, its own identifier and its body.
pub proof fn lemma_message_round_trip(message_id: u64, body: Seq<u8>, rest: Seq<u8>)
    requires
        body.len() < 0x1_0000_0000,
    ensures
        message_parse(crate::client::message_wire(message_id, body) + rest) == Ok::<
            ((i64, i64, Seq<u8>), nat),
            DeserializeError,
        >(((0i64, signed(message_id as nat, 8) as i64, body), (20 + body.len()) as nat)),
{
    let a = le_bytes(0, 8);
    let b = le_bytes(message_id as nat, 8);
    let c = le_bytes(body.len(), 4);
    let input = crate::client::message_wire(message_id, body) + rest;
    lemma_pow256_values();
    lemma_le_bytes_len(0, 8);
    lemma_le_bytes_len(message_id as nat, 8);
    lemma_le_bytes_len(body.len(), 4);
    assert(input =~= a + (b + (c + (body + rest))));
    super::base::lemma_parse_le_of_bytes(0, 8, b + (c + (body + rest)));
    assert(input.skip(8) =~= b + (c + (body + rest)));
    super::base::lemma_parse_le_of_bytes(message_id as nat, 8, c + (body + rest));
    assert(input.skip(8).skip(8) =~= c + (body + rest));
    super::base::lemma_parse_le_of_bytes(body.len(), 4, body + rest);
    assert(input.subrange(20, 20 + body.len() as int) =~= body);
}

} // verus!

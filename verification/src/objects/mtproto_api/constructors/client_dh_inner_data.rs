//! The Diffie-Hellman answer of the client.

#![allow(non_camel_case_types)]

use super::super::types::Server_DH_Inner_Data;
use super::server_dh_inner_data::server_DH_inner_data;
use crate::aes::wipe;
use crate::bignum::bn_mod_exp;
use crate::bignum::canonical;
use crate::bignum::fits;
use crate::buffer::as_slice;
use crate::buffer::buffer_from;
use crate::buffer::contents;
use crate::crypto::random_bytes;
use crate::endian::be_value;
use crate::endian::lemma_be_value_padded;
use crate::endian::pad_front;
use crate::endian::put_be;
use crate::endian::strip_leading_zeros;
use crate::endian::strip_zeros;
use crate::objects::base::twos_complement;
use crate::objects::error::DeserializeError;
use crate::objects::reader::Reader;
use crate::objects::traits::Deserialize;
use crate::objects::traits::RoundTrip;
use crate::objects::traits::Serialize;
use crate::objects::traits::TypeId;
use bytes::BytesMut;
use openssl::error::ErrorStack;
use vstd::arithmetic::power::pow;
use vstd::prelude::*;

verus! {

/// Origin: `client_DH_inner_data#6643b654 nonce:int128 server_nonce:int128 retry_id:long g_b:string = Client_DH_Inner_Data;`
#[derive(Clone, Debug)]
pub struct client_DH_inner_data {
    /// Value generated by client in the first step of the exchange.
    pub nonce: i128,
    /// Value received from server in the second step of the exchange.
    pub server_nonce: i128,
    /// Equal to zero at the time of the first attempt;
    /// otherwise, it is equal to auth_key_aux_hash from the previous failed attempt.
    pub retry_id: i64,
    /// `pow(g, b) mod dh_prime`
    pub g_b: BytesMut,
    /// Used to calculate authroization key. It never goes over the wire:
    /// the encoder leaves it out and the decoder leaves it empty.
    pub b: BytesMut,
}

/// The fields of `client_DH_inner_data` that go over the wire, in their order.
pub type ClientDhInnerDataFields = (i128, (i128, (i64, BytesMut)));

impl client_DH_inner_data {
    /// The fields that go over the wire, as a bare record.
    pub open spec fn fields(&self) -> ClientDhInnerDataFields {
        (self.nonce, (self.server_nonce, (self.retry_id, self.g_b)))
    }
}

impl client_DH_inner_data {
    /// Whether this is the answer to the parameters of the server with the
    /// secret exponent that `secret` spells: it echoes the two nonces,
    /// carries `retry_id`, keeps the secret without its leading zeros, and
    /// has for `g_b` the generator to the power of the secret modulo the
    /// prime. The generator counts as the unsigned 32-bit number that its
    /// bits spell.
    pub open spec fn answers(
        &self,
        server: &server_DH_inner_data,
        retry_id: i64,
        secret: Seq<u8>,
    ) -> bool {
        &&& self.nonce == server.nonce
        &&& self.server_nonce == server.server_nonce
        &&& self.retry_id == retry_id
        &&& contents(self.b) == strip_zeros(secret)
        &&& canonical(contents(self.g_b))
        &&& server.prime() > 0 ==> be_value(contents(self.g_b)) == pow(
            twos_complement(server.g as int, 4) as int,
            be_value(secret),
        ) % (server.prime() as int)
    }

    /// The answer to the parameters of the server with the secret exponent
    /// that `secret` spells.
    pub fn with_secret(server_inner_data: &Server_DH_Inner_Data, retry_id: i64, secret: &[u8]) -> (r:
        Result<Self, ErrorStack>)
        requires
            fits(secret@),
            fits(contents(server_inner_data.inner().dh_prime)),
        ensures
            r matches Ok(c) ==> c.answers(server_inner_data.inner(), retry_id, secret@),
    {
        match server_inner_data {
            Server_DH_Inner_Data::Boxed(server_inner_data) => {
                proof {
                    crate::endian::lemma_pow256_values();
                }
                let g: u32 = if server_inner_data.g >= 0 {
                    server_inner_data.g as u32
                } else {
                    0xffff_ffffu32 - ((-(server_inner_data.g + 1)) as u32)
                };
                let mut g_bytes: Vec<u8> = Vec::new();
                put_be(&mut g_bytes, g as u64, 4);
                proof {
                    crate::endian::lemma_be_value_of_bytes(g as nat, 4);
                    crate::endian::lemma_be_bytes_len(g as nat, 4);
                    assert(g_bytes@ =~= crate::endian::be_bytes(g as nat, 4));
                }
                let g_b = bn_mod_exp(
                    g_bytes.as_slice(),
                    secret,
                    as_slice(&server_inner_data.dh_prime),
                )?;
                Ok(Self::from_power(server_inner_data, retry_id, secret, g_b.as_slice()))
            },
        }
    }

    /// The authorization key that the exchange ends with: what the server
    /// sent as `g_a`, to the power of the secret of the client, modulo the
    /// prime; in 256 bytes, most significant first, where it fits in them.
    pub fn auth_key(&self, server: &server_DH_inner_data) -> (r: Result<Vec<u8>, ErrorStack>)
        requires
            fits(contents(server.g_a)),
            fits(contents(self.b)),
            fits(contents(server.dh_prime)),
        ensures
            r matches Ok(key) ==> {
                &&& key@.len() >= 256
                &&& key@.len() > 256 ==> key@[0] != 0
                &&& server.prime() > 0 ==> be_value(key@) == pow(
                    be_value(contents(server.g_a)) as int,
                    be_value(contents(self.b)),
                ) % (server.prime() as int)
            },
    {
        let shared = bn_mod_exp(
            as_slice(&server.g_a),
            as_slice(&self.b),
            as_slice(&server.dh_prime),
        )?;
        proof {
            lemma_be_value_padded(shared@, 256);
        }
        Ok(pad_front(shared.as_slice(), 256))
    }

    /// Create a new instance, with a secret exponent of 256 random bytes.
    /// * `server_DH_inner_data` - Server's DH inner data received in the fifth step of the exchange
    /// * `retry_id` - Equal to zero at the time of the first attempt;
    /// otherwise, it is equal to auth_key_aux_hash from the previous failed attempt
    pub fn new(server_inner_data: &Server_DH_Inner_Data, retry_id: i64) -> (r: Result<
        Self,
        ErrorStack,
    >)
        requires
            fits(contents(server_inner_data.inner().dh_prime)),
        ensures
            r matches Ok(c) ==> exists|secret: Seq<u8>|
                secret.len() == 256 && #[trigger] c.answers(
                    server_inner_data.inner(),
                    retry_id,
                    secret,
                ),
    {
        let mut b = random_bytes(256)?;
        let r = Self::with_secret(server_inner_data, retry_id, b.as_slice());
        proof {
            if r is Ok {
                assert(r.unwrap().answers(server_inner_data.inner(), retry_id, b@));
            }
        }
        wipe(&mut b);
        r
    }

    /// The answer that echoes the nonces of the server, carries `retry_id`,
    /// keeps the secret exponent that `secret` spells, without its leading
    /// zeros, and has `g_b` for the power of the generator.
    pub fn from_power(
        server: &server_DH_inner_data,
        retry_id: i64,
        secret: &[u8],
        g_b: &[u8],
    ) -> (c: Self)
        ensures
            c.nonce == server.nonce,
            c.server_nonce == server.server_nonce,
            c.retry_id == retry_id,
            contents(c.g_b) == g_b@,
            contents(c.b) == strip_zeros(secret@),
    {
        let mut b: Vec<u8> = Vec::new();
        b.extend_from_slice(secret);
        assert(b@ =~= secret@);
        strip_leading_zeros(&mut b);
        Self {
            nonce: server.nonce,
            server_nonce: server.server_nonce,
            retry_id,
            g_b: buffer_from(g_b),
            b: buffer_from(b.as_slice()),
        }
    }
}

impl TypeId for client_DH_inner_data {
    open spec fn constructor_id() -> u32 {
        0x6643b654
    }

    fn type_id2() -> (id: u32) {
        0x6643b654
    }
}

impl Serialize for client_DH_inner_data {
    open spec fn wire(&self) -> Seq<u8> {
        self.fields().wire()
    }

    fn serialize(&self, writer: &mut Vec<u8>) {
        self.nonce.serialize(writer);
        self.server_nonce.serialize(writer);
        self.retry_id.serialize(writer);
        self.g_b.serialize(writer);
        assert(writer@ =~= old(writer)@ + self.wire());
    }
}

impl Deserialize for client_DH_inner_data {
    type Value = <ClientDhInnerDataFields as Deserialize>::Value;

    open spec fn value(&self) -> Self::Value {
        Deserialize::value(&self.fields())
    }

    open spec fn parse(input: Seq<u8>) -> Result<(Self::Value, nat), DeserializeError> {
        ClientDhInnerDataFields::parse(input)
    }

    fn deserialize<'a>(data: &mut Reader<'a>) -> (r: Result<Self, DeserializeError>)
        ensures
            r matches Ok(v) ==> contents(v.b) == Seq::<u8>::empty(),
    {
        match ClientDhInnerDataFields::deserialize(data) {
            Ok((nonce, (server_nonce, (retry_id, g_b)))) => Ok(
                client_DH_inner_data { nonce, server_nonce, retry_id, g_b, b: BytesMut::new() },
            ),
            Err(e) => Err(e),
        }
    }

    fn deserialize_from_bytes(data: &[u8]) -> (r: Result<Self, DeserializeError>)
        ensures
            r matches Ok(v) ==> contents(v.b) == Seq::<u8>::empty(),
    {
        let mut reader = Reader::new(data);
        Self::deserialize(&mut reader)
    }
}

impl RoundTrip for client_DH_inner_data {
    open spec fn well_formed(&self) -> bool {
        self.fields().well_formed()
    }

    proof fn round_trip(&self, rest: Seq<u8>) {
        self.fields().round_trip(rest);
    }
}

} // verus!

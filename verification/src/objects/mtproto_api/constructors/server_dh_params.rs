//! The encrypted answer of the server, and its decryption.

#![allow(non_camel_case_types)]

use super::super::types::P_Q_inner_data;
use super::super::types::Server_DH_Inner_Data;
use crate::aes::concat;
use crate::buffer::as_slice;
use crate::buffer::contents;
use crate::crypto::aes_ige_decrypt;
use crate::crypto::aes_ige_decrypted;
use crate::crypto::sha1;
use crate::crypto::sha1_digest;
use crate::dc_cache::bytes_equal;
use crate::objects::error::DeserializeError;
use crate::objects::reader::Reader;
use crate::objects::traits::Deserialize;
use crate::objects::traits::RoundTrip;
use crate::objects::traits::Serialize;
use crate::objects::traits::TypeId;
use bytes::BytesMut;
use openssl::aes::KeyError;
use openssl::error::ErrorStack;
use vstd::prelude::*;
use vstd::slice::slice_subrange;

verus! {

/// Decrypt Error
#[derive(Debug)]
pub enum DecryptError {
    /// OpenSSL Error
    OpenSSLError(ErrorStack),
    /// Aes Key error
    AesKeyError(KeyError),
    /// `nonce` or `server_nonce` mismatched, or the hash in the answer is
    /// not the hash of what the answer holds
    Mismatched,
    /// Deserialize error
    DeserializeError(DeserializeError),
    /// The encrypted answer is not a whole number of AES blocks, or is too
    /// short to hold a hash.
    InvalidLength,
}

/// The key under which the answer of the server is encrypted: the SHA1 of
/// the new nonce and the server nonce, then the first twelve bytes of the
/// SHA1 of the server nonce and the new nonce.
pub open spec fn tmp_aes_key(new_nonce: Seq<u8>, server_nonce: Seq<u8>) -> Seq<u8> {
    sha1(new_nonce + server_nonce) + sha1(server_nonce + new_nonce).take(12)
}

/// The vector under which the answer of the server is encrypted: the last
/// eight bytes of the SHA1 of the server nonce and the new nonce, the SHA1
/// of the new nonce twice over, and the first four bytes of the new nonce.
pub open spec fn tmp_aes_iv(new_nonce: Seq<u8>, server_nonce: Seq<u8>) -> Seq<u8> {
    sha1(server_nonce + new_nonce).skip(12) + sha1(new_nonce + new_nonce) + new_nonce.take(4)
}

/// Derives the key and the vector of the encrypted answer from the two
/// nonces, given as they are on the wire.
pub fn derive_tmp_aes(new_nonce: &[u8], server_nonce: &[u8]) -> (r: (Vec<u8>, Vec<u8>))
    requires
        new_nonce@.len() >= 4,
    ensures
        r.0@ == tmp_aes_key(new_nonce@, server_nonce@),
        r.1@ == tmp_aes_iv(new_nonce@, server_nonce@),
        r.0@.len() == 32,
        r.1@.len() == 32,
{
    let a = sha1_digest(concat(new_nonce, server_nonce).as_slice());
    let b = sha1_digest(concat(server_nonce, new_nonce).as_slice());
    let c = sha1_digest(concat(new_nonce, new_nonce).as_slice());
    let tmp_aes_key = concat(a.as_slice(), slice_subrange(b.as_slice(), 0, 12));
    let mut tmp_aes_iv = concat(slice_subrange(b.as_slice(), 12, 20), c.as_slice());
    tmp_aes_iv.extend_from_slice(slice_subrange(new_nonce, 0, 4));
    proof {
        assert(b@.subrange(0, 12) =~= b@.take(12));
        assert(b@.subrange(12, 20) =~= b@.skip(12));
        assert(new_nonce@.subrange(0, 4) =~= new_nonce@.take(4));
    }
    (tmp_aes_key, tmp_aes_iv)
}

/// Origin: `server_DH_params_ok#d0e8075c nonce:int128 server_nonce:int128 encrypted_answer:string = Server_DH_Params;`
#[derive(Clone, Debug)]
pub struct server_DH_params_ok {
    /// Value generated by client in the first step of the exchange.
    pub nonce: i128,
    /// Value received from server in the second step of the exchange.
    pub server_nonce: i128,
    /// Encrypted server answer.
    pub encrypted_answer: BytesMut,
}

/// The fields of `server_DH_params_ok` that go over the wire, in their order.
pub type ServerDhParamsOkFields = (i128, (i128, BytesMut));

impl server_DH_params_ok {
    /// The fields that go over the wire, as a bare record.
    pub open spec fn fields(&self) -> ServerDhParamsOkFields {
        (self.nonce, (self.server_nonce, self.encrypted_answer))
    }
}

impl server_DH_params_ok {
    /// Whether the answer echoes the two nonces of the data that the client sent.
    pub open spec fn echoes(&self, p_q_inner_data: &P_Q_inner_data) -> bool {
        p_q_inner_data.spec_server_nonce() == self.server_nonce && p_q_inner_data.spec_nonce()
            == self.nonce
    }

    /// Whether the encrypted answer has a length that can be decrypted and
    /// holds a hash: a multiple of 16 that is at least 20.
    pub open spec fn sized(&self) -> bool {
        contents(self.encrypted_answer).len() % 16 == 0 && contents(self.encrypted_answer).len()
            >= 20
    }

    /// The answer decrypted under the key and the vector that the nonces give.
    pub open spec fn answer_with_hash(&self, p_q_inner_data: &P_Q_inner_data) -> Seq<u8> {
        aes_ige_decrypted(
            tmp_aes_key(p_q_inner_data.spec_new_nonce().wire(), self.server_nonce.wire()),
            tmp_aes_iv(p_q_inner_data.spec_new_nonce().wire(), self.server_nonce.wire()),
            contents(self.encrypted_answer),
        )
    }

    /// Whether the decrypted answer holds `inner` behind its first twenty bytes.
    pub open spec fn holds(&self, p_q_inner_data: &P_Q_inner_data, inner: Server_DH_Inner_Data) -> bool {
        Server_DH_Inner_Data::parse(self.answer_with_hash(p_q_inner_data).skip(20)) matches Ok(
            (v, _),
        ) && v == Deserialize::value(&inner)
    }

    /// Whether `inner` is in order: the first twenty bytes of the decrypted
    /// answer are the SHA1 of `inner` as it is on the wire, and `inner`
    /// carries the two nonces of the answer.
    pub open spec fn in_order(&self, p_q_inner_data: &P_Q_inner_data, inner: Server_DH_Inner_Data) -> bool {
        &&& self.answer_with_hash(p_q_inner_data).take(20) == sha1(inner.wire())
        &&& inner.inner().nonce == self.nonce
        &&& inner.inner().server_nonce == self.server_nonce
    }

    /// Whether the decrypted answer holds `inner`, and `inner` is not in order.
    pub open spec fn refuses(&self, p_q_inner_data: &P_Q_inner_data, inner: Server_DH_Inner_Data) -> bool {
        self.holds(p_q_inner_data, inner) && !self.in_order(p_q_inner_data, inner)
    }

    /// Decrypt the answer.
    /// * `p_q_inner_data`: Data sended in the fourth step of the exchange.
    ///
    /// The answer must echo the nonces, have a length that can be decrypted,
    /// hold a boxed `server_DH_inner_data` behind its first twenty bytes,
    /// have in those bytes the SHA1 of that data as it is on the wire, and
    /// carry the same two nonces inside the data. Where all of that is so,
    /// the data is handed out; a nonce or a hash that differs is a mismatch.
    pub fn decrypt_answer(&self, p_q_inner_data: &P_Q_inner_data) -> (r: Result<
        Server_DH_Inner_Data,
        DecryptError,
    >)
        ensures
            match r {
                Ok(inner) => {
                    &&& self.echoes(p_q_inner_data)
                    &&& self.sized()
                    &&& self.holds(p_q_inner_data, inner)
                    &&& self.in_order(p_q_inner_data, inner)
                },
                Err(DecryptError::Mismatched) => !self.echoes(p_q_inner_data) || (self.sized()
                    && exists|inner: Server_DH_Inner_Data| #[trigger]
                    self.refuses(p_q_inner_data, inner)),
                Err(DecryptError::InvalidLength) => self.echoes(p_q_inner_data) && !self.sized(),
                Err(DecryptError::DeserializeError(e)) => self.echoes(p_q_inner_data)
                    && self.sized() && Server_DH_Inner_Data::parse(
                    self.answer_with_hash(p_q_inner_data).skip(20),
                ) == Err::<(<Server_DH_Inner_Data as Deserialize>::Value, nat), DeserializeError>(
                    e,
                ),
                Err(DecryptError::AesKeyError(_)) => false,
                Err(DecryptError::OpenSSLError(_)) => false,
            },
    {
        let server_nonce = match p_q_inner_data {
            P_Q_inner_data::P_Q_inner_data_dc(v) => v.server_nonce,
            P_Q_inner_data::P_Q_inner_data_temp_dc(v) => v.server_nonce,
        };
        if server_nonce != self.server_nonce {
            return Err(DecryptError::Mismatched);
        }
        let nonce = match p_q_inner_data {
            P_Q_inner_data::P_Q_inner_data_dc(v) => v.nonce,
            P_Q_inner_data::P_Q_inner_data_temp_dc(v) => v.nonce,
        };
        if nonce != self.nonce {
            return Err(DecryptError::Mismatched);
        }
        let new_nonce = match p_q_inner_data {
            P_Q_inner_data::P_Q_inner_data_dc(v) => &v.new_nonce,
            P_Q_inner_data::P_Q_inner_data_temp_dc(v) => &v.new_nonce,
        };
        let new_nonce = new_nonce.serialize_to_vec();
        let server_nonce = self.server_nonce.serialize_to_vec();
        let encrypted = as_slice(&self.encrypted_answer);
        if encrypted.len() % 16 != 0 || encrypted.len() < 20 {
            return Err(DecryptError::InvalidLength);
        }
        proof {
            crate::endian::lemma_le_bytes_len(p_q_inner_data.spec_new_nonce().limbs()[3] as nat, 8);
        }
        let (tmp_aes_key, tmp_aes_iv) = derive_tmp_aes(
            new_nonce.as_slice(),
            server_nonce.as_slice(),
        );
        let answer_with_hash = match aes_ige_decrypt(
            encrypted,
            tmp_aes_key.as_slice(),
            tmp_aes_iv.as_slice(),
        ) {
            Ok(out) => out,
            Err(e) => {
                return Err(DecryptError::AesKeyError(e));
            },
        };
        let body = slice_subrange(answer_with_hash.as_slice(), 20, answer_with_hash.len());
        assert(body@ =~= answer_with_hash@.skip(20));
        let inner = match Server_DH_Inner_Data::deserialize_from_bytes(body) {
            Ok(inner) => inner,
            Err(e) => {
                return Err(DecryptError::DeserializeError(e));
            },
        };
        let answer = inner.serialize_to_vec();
        let answer_hash = sha1_digest(answer.as_slice());
        let sent_hash = slice_subrange(answer_with_hash.as_slice(), 0, 20);
        assert(sent_hash@ =~= answer_with_hash@.take(20));
        if !bytes_equal(answer_hash.as_slice(), sent_hash) {
            assert(self.refuses(p_q_inner_data, inner));
            return Err(DecryptError::Mismatched);
        }
        let echoed = match &inner {
            Server_DH_Inner_Data::Boxed(v) => v.nonce == self.nonce && v.server_nonce
                == self.server_nonce,
        };
        if !echoed {
            assert(self.refuses(p_q_inner_data, inner));
            return Err(DecryptError::Mismatched);
        }
        Ok(inner)
    }

    /// What the decrypted answer holds decides alone: two values that it
    /// holds are the same on the wire and carry the same nonces, so that
    /// either both are in order or neither is. With the contract of
    /// `decrypt_answer` this gives that data which is held and in order is
    /// handed out, and data which is held and not in order is a mismatch.
    pub proof fn lemma_held_once(
        &self,
        p_q_inner_data: &P_Q_inner_data,
        a: Server_DH_Inner_Data,
        b: Server_DH_Inner_Data,
    )
        requires
            self.holds(p_q_inner_data, a),
            self.holds(p_q_inner_data, b),
        ensures
            a.wire() == b.wire(),
            self.in_order(p_q_inner_data, a) == self.in_order(p_q_inner_data, b),
    {
    }
}

impl TypeId for server_DH_params_ok {
    open spec fn constructor_id() -> u32 {
        0xd0e8075c
    }

    fn type_id2() -> (id: u32) {
        0xd0e8075c
    }
}

impl Serialize for server_DH_params_ok {
    open spec fn wire(&self) -> Seq<u8> {
        self.fields().wire()
    }

    fn serialize(&self, writer: &mut Vec<u8>) {
        self.nonce.serialize(writer);
        self.server_nonce.serialize(writer);
        self.encrypted_answer.serialize(writer);
        assert(writer@ =~= old(writer)@ + self.wire());
    }
}

impl Deserialize for server_DH_params_ok {
    type Value = <ServerDhParamsOkFields as Deserialize>::Value;

    open spec fn value(&self) -> Self::Value {
        Deserialize::value(&self.fields())
    }

    open spec fn parse(input: Seq<u8>) -> Result<(Self::Value, nat), DeserializeError> {
        ServerDhParamsOkFields::parse(input)
    }

    fn deserialize<'a>(data: &mut Reader<'a>) -> (r: Result<Self, DeserializeError>) {
        match ServerDhParamsOkFields::deserialize(data) {
            Ok((nonce, (server_nonce, encrypted_answer))) => Ok(
                server_DH_params_ok { nonce, server_nonce, encrypted_answer },
            ),
            Err(e) => Err(e),
        }
    }
}

impl RoundTrip for server_DH_params_ok {
    open spec fn well_formed(&self) -> bool {
        self.fields().well_formed()
    }

    proof fn round_trip(&self, rest: Seq<u8>) {
        self.fields().round_trip(rest);
    }
}

} // verus!

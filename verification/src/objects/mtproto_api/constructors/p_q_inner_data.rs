//! The proof of work of the client: the product of the server, factored.

#![allow(non_camel_case_types)]

use super::res_pq::resPQ;
use super::res_pq::FactorizeError;
use crate::buffer::buffer_from;
use crate::buffer::contents;
use crate::objects::base::I256;
use crate::endian::be_value;
use crate::prime::is_big;
use crate::prime::searched;
use crate::prime::searched_in_vain;
use crate::random::Random;
use crate::objects::error::DeserializeError;
use crate::objects::reader::Reader;
use crate::objects::traits::Deserialize;
use crate::objects::traits::RoundTrip;
use crate::objects::traits::Serialize;
use crate::objects::traits::TypeId;
use bytes::BytesMut;
use vstd::prelude::*;

verus! {

/// Used in server authentication to create a permanent authorization key.
///
/// Origin: `p_q_inner_data_dc#a9f55f95 pq:string p:string q:string nonce:int128 server_nonce:int128 new_nonce:int256 dc:int = P_Q_inner_data;`
#[derive(Clone, Debug)]
pub struct p_q_inner_data_dc {
    /// The product that the server sent.
    pub pq: BytesMut,
    /// First prime cofactor.
    pub p: BytesMut,
    /// Second prime cofactor.
    pub q: BytesMut,
    /// Value generated by client in the first step of the exchange.
    pub nonce: i128,
    /// Value received from server in the second step of the exchange.
    pub server_nonce: i128,
    /// Client-generated random number
    pub new_nonce: I256,
    /// The datacenter that the key is for.
    pub dc: i32,
}

/// The fields of `p_q_inner_data_dc` that go over the wire, in their order.
pub type PqInnerDataDcFields = (BytesMut, (BytesMut, (BytesMut, (i128, (i128, (I256, i32))))));

impl p_q_inner_data_dc {
    /// The fields that go over the wire, as a bare record.
    pub open spec fn fields(&self) -> PqInnerDataDcFields {
        (self.pq, (self.p, (self.q, (self.nonce, (self.server_nonce, (self.new_nonce, self.dc))))))
    }
}

impl p_q_inner_data_dc {
    /// Whether this is the answer to `value` with the given new nonce: it
    /// echoes the product and the two nonces, its cofactors are those that
    /// the factoring of the product hands out, and it names no datacenter.
    pub open spec fn answers(&self, value: &resPQ, new_nonce: I256) -> bool {
        &&& contents(self.pq) == contents(value.pq)
        &&& value.factored(contents(self.p), contents(self.q))
        &&& searched(contents(value.pq), be_value(contents(self.p)), be_value(contents(self.q)))
        &&& self.nonce == value.nonce
        &&& self.server_nonce == value.server_nonce
        &&& self.new_nonce == new_nonce
        &&& self.dc == -1
    }

    /// The answer to `value` with the given new nonce.
    pub fn with_new_nonce(value: &resPQ, new_nonce: I256) -> (r: Result<Self, FactorizeError>)
        ensures
            r matches Ok(d) ==> d.answers(value, new_nonce),
            r matches Err(FactorizeError::OpenSSLError(_)) ==> is_big(contents(value.pq)),
            value.surely_factored() ==> r is Ok,
            value.surely_not_factored() ==> r matches Err(FactorizeError::NotFound),
            r matches Err(FactorizeError::NotFound) ==> contents(value.pq).len() >= 0x0fff_ffff
                || searched_in_vain(contents(value.pq)),
    {
        let (p, q) = match value.pq_factorize() {
            Ok(s) => s,
            Err(e) => {
                return Err(e);
            },
        };
        Ok(
            Self {
                pq: value.pq.clone(),
                p: buffer_from(p.as_slice()),
                q: buffer_from(q.as_slice()),
                nonce: value.nonce,
                server_nonce: value.server_nonce,
                new_nonce,
                dc: -1,
            },
        )
    }

    /// The answer to `value` for a permanent key, with a random new nonce.
    pub fn try_from(value: &resPQ) -> (r: Result<Self, FactorizeError>)
        ensures
            r matches Ok(d) ==> d.answers(value, d.new_nonce),
            r matches Err(FactorizeError::OpenSSLError(_)) ==> is_big(contents(value.pq)),
            value.surely_factored() ==> r is Ok,
            value.surely_not_factored() ==> r matches Err(FactorizeError::NotFound),
            r matches Err(FactorizeError::NotFound) ==> contents(value.pq).len() >= 0x0fff_ffff
                || searched_in_vain(contents(value.pq)),
    {
        let mut random = Random::new();
        Self::with_new_nonce(value, I256::random(&mut random))
    }
}

impl TypeId for p_q_inner_data_dc {
    open spec fn constructor_id() -> u32 {
        0xa9f55f95
    }

    fn type_id2() -> (id: u32) {
        0xa9f55f95
    }
}

impl Serialize for p_q_inner_data_dc {
    open spec fn wire(&self) -> Seq<u8> {
        self.fields().wire()
    }

    fn serialize(&self, writer: &mut Vec<u8>) {
        self.pq.serialize(writer);
        self.p.serialize(writer);
        self.q.serialize(writer);
        self.nonce.serialize(writer);
        self.server_nonce.serialize(writer);
        self.new_nonce.serialize(writer);
        self.dc.serialize(writer);
        assert(writer@ =~= old(writer)@ + self.wire());
    }
}

impl Deserialize for p_q_inner_data_dc {
    type Value = <PqInnerDataDcFields as Deserialize>::Value;

    open spec fn value(&self) -> Self::Value {
        Deserialize::value(&self.fields())
    }

    open spec fn parse(input: Seq<u8>) -> Result<(Self::Value, nat), DeserializeError> {
        PqInnerDataDcFields::parse(input)
    }

    fn deserialize<'a>(data: &mut Reader<'a>) -> (r: Result<Self, DeserializeError>) {
        match PqInnerDataDcFields::deserialize(data) {
            Ok((pq, (p, (q, (nonce, (server_nonce, (new_nonce, dc))))))) => Ok(
                p_q_inner_data_dc { pq, p, q, nonce, server_nonce, new_nonce, dc },
            ),
            Err(e) => Err(e),
        }
    }
}

impl RoundTrip for p_q_inner_data_dc {
    open spec fn well_formed(&self) -> bool {
        self.fields().well_formed()
    }

    proof fn round_trip(&self, rest: Seq<u8>) {
        self.fields().round_trip(rest);
    }
}

/// Used in server authentication to create a temporary authorization key,
/// that are only stored in the server RAM and are discarded after at most `expires_in` seconds.
///
/// Origin: `p_q_inner_data_temp_dc#56fddf88 pq:string p:string q:string nonce:int128 server_nonce:int128 new_nonce:int256 dc:int expires_in:int = P_Q_inner_data;`
#[derive(Clone, Debug)]
pub struct p_q_inner_data_temp_dc {
    /// The product that the server sent.
    pub pq: BytesMut,
    /// First prime cofactor.
    pub p: BytesMut,
    /// Second prime cofactor.
    pub q: BytesMut,
    /// Value generated by client in the first step of the exchange.
    pub nonce: i128,
    /// Value received from server in the second step of the exchange.
    pub server_nonce: i128,
    /// Client-generated random number
    pub new_nonce: I256,
    /// The datacenter that the key is for.
    pub dc: i32,
    /// Discarded after at most `expires_in` seconds.
    pub expires_in: i32,
}

/// The fields of `p_q_inner_data_temp_dc` that go over the wire, in their order.
pub type PqInnerDataTempDcFields = (BytesMut, (BytesMut, (BytesMut, (i128, (i128, (I256, (i32, i32)))))));

impl p_q_inner_data_temp_dc {
    /// The fields that go over the wire, as a bare record.
    pub open spec fn fields(&self) -> PqInnerDataTempDcFields {
        (self.pq, (self.p, (self.q, (self.nonce, (self.server_nonce, (self.new_nonce, (self.dc, self.expires_in)))))))
    }
}

impl p_q_inner_data_temp_dc {
    /// Whether this is the answer to `value` with the given new nonce: it
    /// echoes the product and the two nonces, its cofactors are those that
    /// the factoring of the product hands out, and it names no datacenter.
    pub open spec fn answers(&self, value: &resPQ, new_nonce: I256) -> bool {
        &&& contents(self.pq) == contents(value.pq)
        &&& value.factored(contents(self.p), contents(self.q))
        &&& searched(contents(value.pq), be_value(contents(self.p)), be_value(contents(self.q)))
        &&& self.nonce == value.nonce
        &&& self.server_nonce == value.server_nonce
        &&& self.new_nonce == new_nonce
        &&& self.dc == -1
        &&& self.expires_in == 120
    }

    /// The answer to `value` with the given new nonce.
    pub fn with_new_nonce(value: &resPQ, new_nonce: I256) -> (r: Result<Self, FactorizeError>)
        ensures
            r matches Ok(d) ==> d.answers(value, new_nonce),
            r matches Err(FactorizeError::OpenSSLError(_)) ==> is_big(contents(value.pq)),
            value.surely_factored() ==> r is Ok,
            value.surely_not_factored() ==> r matches Err(FactorizeError::NotFound),
            r matches Err(FactorizeError::NotFound) ==> contents(value.pq).len() >= 0x0fff_ffff
                || searched_in_vain(contents(value.pq)),
    {
        let (p, q) = match value.pq_factorize() {
            Ok(s) => s,
            Err(e) => {
                return Err(e);
            },
        };
        Ok(
            Self {
                pq: value.pq.clone(),
                p: buffer_from(p.as_slice()),
                q: buffer_from(q.as_slice()),
                nonce: value.nonce,
                server_nonce: value.server_nonce,
                new_nonce,
                dc: -1,
                expires_in: 120,
            },
        )
    }

    /// The answer to `value` for a temporary key that lasts 120 seconds, with a random new nonce.
    pub fn try_from(value: &resPQ) -> (r: Result<Self, FactorizeError>)
        ensures
            r matches Ok(d) ==> d.answers(value, d.new_nonce),
            r matches Err(FactorizeError::OpenSSLError(_)) ==> is_big(contents(value.pq)),
            value.surely_factored() ==> r is Ok,
            value.surely_not_factored() ==> r matches Err(FactorizeError::NotFound),
            r matches Err(FactorizeError::NotFound) ==> contents(value.pq).len() >= 0x0fff_ffff
                || searched_in_vain(contents(value.pq)),
    {
        let mut random = Random::new();
        Self::with_new_nonce(value, I256::random(&mut random))
    }
}

impl TypeId for p_q_inner_data_temp_dc {
    open spec fn constructor_id() -> u32 {
        0x56fddf88
    }

    fn type_id2() -> (id: u32) {
        0x56fddf88
    }
}

impl Serialize for p_q_inner_data_temp_dc {
    open spec fn wire(&self) -> Seq<u8> {
        self.fields().wire()
    }

    fn serialize(&self, writer: &mut Vec<u8>) {
        self.pq.serialize(writer);
        self.p.serialize(writer);
        self.q.serialize(writer);
        self.nonce.serialize(writer);
        self.server_nonce.serialize(writer);
        self.new_nonce.serialize(writer);
        self.dc.serialize(writer);
        self.expires_in.serialize(writer);
        assert(writer@ =~= old(writer)@ + self.wire());
    }
}

impl Deserialize for p_q_inner_data_temp_dc {
    type Value = <PqInnerDataTempDcFields as Deserialize>::Value;

    open spec fn value(&self) -> Self::Value {
        Deserialize::value(&self.fields())
    }

    open spec fn parse(input: Seq<u8>) -> Result<(Self::Value, nat), DeserializeError> {
        PqInnerDataTempDcFields::parse(input)
    }

    fn deserialize<'a>(data: &mut Reader<'a>) -> (r: Result<Self, DeserializeError>) {
        match PqInnerDataTempDcFields::deserialize(data) {
            Ok((pq, (p, (q, (nonce, (server_nonce, (new_nonce, (dc, expires_in)))))))) => Ok(
                p_q_inner_data_temp_dc { pq, p, q, nonce, server_nonce, new_nonce, dc, expires_in },
            ),
            Err(e) => Err(e),
        }
    }
}

impl RoundTrip for p_q_inner_data_temp_dc {
    open spec fn well_formed(&self) -> bool {
        self.fields().well_formed()
    }

    proof fn round_trip(&self, rest: Seq<u8>) {
        self.fields().round_trip(rest);
    }
}

} // verus!

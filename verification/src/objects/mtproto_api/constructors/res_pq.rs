//! The product that the server asks the client to factor.

#![allow(non_camel_case_types)]

use crate::buffer::as_slice;
use crate::buffer::contents;
use crate::endian::be_value;
use crate::objects::error::DeserializeError;
use crate::objects::reader::Reader;
use crate::objects::traits::Deserialize;
use crate::objects::traits::RoundTrip;
use crate::objects::traits::Serialize;
use crate::objects::traits::TypeId;
use crate::prime::factors;
use crate::prime::is_big;
use crate::prime::is_prime;
use crate::prime::searched;
use crate::prime::searched_in_vain;
use bytes::BytesMut;
use openssl::error::ErrorStack;
use vstd::prelude::*;

verus! {

/// Factorize error
#[derive(Debug)]
pub enum FactorizeError {
    /// OpenSSL Error
    OpenSSLError(ErrorStack),
    /// No prime found
    NotFound,
}

/// The response type for function `req_pq_multi`.
///
/// Origin: `resPQ#05162463 nonce:int128 server_nonce:int128 pq:string server_public_key_fingerprints:Vector<long> = ResPQ;`
#[derive(Clone, Debug)]
pub struct resPQ {
    /// Selected randomly by the client (random number) and identifies the client within this communication.
    pub nonce: i128,
    /// Selected randomly by the server.
    pub server_nonce: i128,
    /// A representation of a natural number (in binary big endian format).
    /// This number is the product of two different odd prime numbers.
    /// Normally, pq is less than or equal to 2^63-1.
    pub pq: BytesMut,
    /// A list of public RSA key fingerprints (64 lower-order bits of SHA1 (server_public_key);
    /// the public key is represented as a bare type `rsa_public_key n:string e:string = RSAPublicKey`,
    /// where, as usual, n and e are numbers in big endian format serialized as strings of bytes,
    /// following which SHA1 is computed) received by the server.
    pub server_public_key_fingerprints: Box<Vec<i64>>,
}

/// The fields of `resPQ`, in the order of the wire.
pub type ResPqFields = (i128, (i128, (BytesMut, Box<Vec<i64>>)));

impl resPQ {
    /// The fields as a bare record.
    pub open spec fn fields(&self) -> ResPqFields {
        (self.nonce, (self.server_nonce, (self.pq, self.server_public_key_fingerprints)))
    }
}

impl resPQ {
    /// Whether `p` and `q` spell a factoring of `pq`: two numbers above 1
    /// whose product `pq` spells, the smaller first, each in as few bytes as
    /// spell it.
    pub open spec fn factored(&self, p: Seq<u8>, q: Seq<u8>) -> bool {
        factors(p, q, contents(self.pq))
    }

    /// Whether the factoring is sure to succeed, whatever the search draws:
    /// on a product of up to 63 bits that is even and above 2.
    pub open spec fn surely_factored(&self) -> bool {
        !is_big(contents(self.pq)) && be_value(contents(self.pq)) > 2 && be_value(
            contents(self.pq),
        ) % 2 == 0
    }

    /// Whether the factoring is sure to find nothing: on a product of up to
    /// 63 bits that is not above 2, and on one of more bytes than a number
    /// is taken to have.
    pub open spec fn surely_not_factored(&self) -> bool {
        contents(self.pq).len() >= 0x0fff_ffff || (!is_big(contents(self.pq)) && be_value(
            contents(self.pq),
        ) <= 2)
    }

    /// Returns (p, q), or `NotFound` where the search finds no factoring. A
    /// product of up to 63 bits that is even and above 2 always comes apart,
    /// with 2 first; one that is not above 2 never does, nor one of more
    /// bytes than a number is taken to have.
    pub fn pq_factorize(&self) -> (r: Result<(Vec<u8>, Vec<u8>), FactorizeError>)
        ensures
            r matches Ok((p, q)) ==> self.factored(p@, q@) && searched(
                contents(self.pq),
                be_value(p@),
                be_value(q@),
            ),
            r matches Err(FactorizeError::NotFound) ==> contents(self.pq).len() >= 0x0fff_ffff
                || searched_in_vain(contents(self.pq)),
            r matches Err(FactorizeError::OpenSSLError(_)) ==> is_big(contents(self.pq)),
            contents(self.pq).len() >= 0x0fff_ffff ==> r matches Err(FactorizeError::NotFound),
            !is_big(contents(self.pq)) && be_value(contents(self.pq)) <= 2 ==> r matches Err(
                FactorizeError::NotFound,
            ),
            !is_big(contents(self.pq)) && be_value(contents(self.pq)) > 2 && be_value(
                contents(self.pq),
            ) % 2 == 0 ==> (r matches Ok((p, _)) && be_value(p@) == 2),
    {
        if self.pq.len() >= 0x0fff_ffff {
            return Err(FactorizeError::NotFound);
        }
        match crate::prime::pq_factorize(as_slice(&self.pq)) {
            Ok(Some(s)) => Ok(s),
            Ok(None) => Err(FactorizeError::NotFound),
            Err(e) => Err(FactorizeError::OpenSSLError(e)),
        }
    }
}

/// What the factoring hands out for the product of two primes are the two
/// primes: the factors are prime, the smaller comes first, and both are odd
/// where the product is.
pub proof fn lemma_factored_semiprime(v: &resPQ, big_p: nat, big_q: nat, p: Seq<u8>, q: Seq<u8>)
    requires
        is_prime(big_p),
        is_prime(big_q),
        big_p <= big_q,
        be_value(contents(v.pq)) == big_p * big_q,
        v.factored(p, q),
    ensures
        be_value(p) == big_p,
        be_value(q) == big_q,
{
    crate::prime::lemma_semiprime_factors(big_p, big_q, be_value(p), be_value(q));
}

impl TypeId for resPQ {
    open spec fn constructor_id() -> u32 {
        0x05162463
    }

    fn type_id2() -> (id: u32) {
        0x05162463
    }
}

impl Serialize for resPQ {
    open spec fn wire(&self) -> Seq<u8> {
        self.fields().wire()
    }

    fn serialize(&self, writer: &mut Vec<u8>) {
        self.nonce.serialize(writer);
        self.server_nonce.serialize(writer);
        self.pq.serialize(writer);
        self.server_public_key_fingerprints.serialize(writer);
        assert(writer@ =~= old(writer)@ + self.wire());
    }
}

impl Deserialize for resPQ {
    type Value = <ResPqFields as Deserialize>::Value;

    open spec fn value(&self) -> Self::Value {
        Deserialize::value(&self.fields())
    }

    open spec fn parse(input: Seq<u8>) -> Result<(Self::Value, nat), DeserializeError> {
        ResPqFields::parse(input)
    }

    fn deserialize<'a>(data: &mut Reader<'a>) -> (r: Result<Self, DeserializeError>) {
        match ResPqFields::deserialize(data) {
            Ok((nonce, (server_nonce, (pq, server_public_key_fingerprints)))) => Ok(
                resPQ { nonce, server_nonce, pq, server_public_key_fingerprints },
            ),
            Err(e) => Err(e),
        }
    }
}

impl RoundTrip for resPQ {
    open spec fn well_formed(&self) -> bool {
        self.fields().well_formed()
    }

    proof fn round_trip(&self, rest: Seq<u8>) {
        self.fields().round_trip(rest);
    }
}

} // verus!

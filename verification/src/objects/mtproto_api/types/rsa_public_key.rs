//! The public RSA key of a server, and its fingerprint.

#![allow(non_camel_case_types)]

use crate::aes::concat;
use crate::buffer::buffer_from;
use crate::buffer::contents;
use crate::crypto::sha1;
use crate::crypto::sha1_digest;
use crate::endian::get_le;
use crate::endian::le_value;
use crate::endian::lemma_le_value_bound;
use crate::endian::lemma_pow256_values;
use crate::objects::base::signed;
use crate::objects::error::DeserializeError;
use crate::objects::reader::Reader;
use crate::objects::traits::Deserialize;
use crate::objects::traits::RoundTrip;
use crate::objects::traits::Serialize;
use bytes::BytesMut;
use vstd::prelude::*;

verus! {

/// RSA Public key
///
/// Source: `rsa_public_key n:string e:string = RSAPublicKey;`
#[derive(Clone, Debug)]
pub struct RSAPublicKey {
    /// The modulus, most significant byte first.
    pub n: BytesMut,
    /// The public exponent, most significant byte first.
    pub e: BytesMut,
}

/// The fields of `RSAPublicKey` that go over the wire, in their order.
pub type RsaPublicKeyFields = (BytesMut, BytesMut);

impl RSAPublicKey {
    /// The fields that go over the wire, as a bare record.
    pub open spec fn fields(&self) -> RsaPublicKeyFields {
        (self.n, self.e)
    }
}

impl RSAPublicKey {
    /// The SHA1 hash of the key: of its bare wire form, the modulus and then
    /// the exponent, each as a byte string.
    pub open spec fn spec_sha1(&self) -> Seq<u8> {
        sha1(self.n.wire() + self.e.wire())
    }

    /// Return sha1 hash of the public key
    pub fn sha1(&self) -> (hash: BytesMut)
        ensures
            contents(hash) == self.spec_sha1(),
            contents(hash).len() == 20,
    {
        let n = self.n.serialize_to_vec();
        let e = self.e.serialize_to_vec();
        let hash = sha1_digest(concat(n.as_slice(), e.as_slice()).as_slice());
        buffer_from(hash.as_slice())
    }

    /// The fingerprint of the key: the 64 lower-order bits of its SHA1, which
    /// are the last eight bytes of the hash read as a signed number, least
    /// significant byte first.
    pub open spec fn fingerprint(&self) -> int {
        signed(le_value(self.spec_sha1().subrange(12, 20)), 8)
    }

    /// Return 64 lower-order bits of SHA1: the fingerprint of the key.
    pub fn sha1_as_i64(&self) -> (fingerprint: i64)
        ensures
            fingerprint == self.fingerprint(),
    {
        let n = self.n.serialize_to_vec();
        let e = self.e.serialize_to_vec();
        let hash = sha1_digest(concat(n.as_slice(), e.as_slice()).as_slice());
        proof {
            lemma_pow256_values();
            lemma_le_value_bound(hash@.subrange(12, 20));
        }
        let u: u128 = get_le(vstd::slice::slice_subrange(hash.as_slice(), 12, 20));
        if u < 0x8000_0000_0000_0000 {
            u as i64
        } else {
            -((0xffff_ffff_ffff_ffffu128 - u) as i64) - 1
        }
    }
}

/// Whether `fingerprint` is one of `fingerprints`.
fn offered(fingerprints: &[i64], fingerprint: i64) -> (found: bool)
    ensures
        found == fingerprints@.contains(fingerprint),
{
    let mut i: usize = 0;
    while i < fingerprints.len()
        invariant
            i <= fingerprints@.len(),
            forall|j: int| 0 <= j < i ==> fingerprints@[j] != fingerprint,
        decreases fingerprints@.len() - i,
    {
        if fingerprints[i] == fingerprint {
            return true;
        }
        i = i + 1;
    }
    false
}

/// Whether the server offers the key: its fingerprint is among those that the server sent.
pub open spec fn is_offered(key: &RSAPublicKey, fingerprints: Seq<i64>) -> bool {
    exists|j: int| 0 <= j < fingerprints.len() && fingerprints[j] == key.fingerprint()
}

/// The place of the first of the known keys that the server offers, if it
/// offers any: the key whose fingerprint is among those that the server sent.
pub fn select_key(keys: &[RSAPublicKey], fingerprints: &[i64]) -> (r: Option<usize>)
    ensures
        match r {
            Some(at) => at < keys@.len() && is_offered(&keys@[at as int], fingerprints@)
                && forall|j: int| 0 <= j < at ==> !is_offered(&#[trigger] keys@[j], fingerprints@),
            None => forall|j: int|
                0 <= j < keys@.len() ==> !is_offered(&#[trigger] keys@[j], fingerprints@),
        },
{
    let mut i: usize = 0;
    while i < keys.len()
        invariant
            i <= keys@.len(),
            forall|j: int| 0 <= j < i ==> !is_offered(&#[trigger] keys@[j], fingerprints@),
        decreases keys@.len() - i,
    {
        let fingerprint: i64 = keys[i].sha1_as_i64();
        if offered(fingerprints, fingerprint) {
            proof {
                let j = choose|j: int|
                    0 <= j < fingerprints@.len() && fingerprints@[j] == fingerprint;
                assert(fingerprints@[j] == keys@[i as int].fingerprint());
            }
            return Some(i);
        }
        i = i + 1;
    }
    None
}

impl Serialize for RSAPublicKey {
    open spec fn wire(&self) -> Seq<u8> {
        self.fields().wire()
    }

    fn serialize(&self, writer: &mut Vec<u8>) {
        self.n.serialize(writer);
        self.e.serialize(writer);
        assert(writer@ =~= old(writer)@ + self.wire());
    }
}

impl Deserialize for RSAPublicKey {
    type Value = <RsaPublicKeyFields as Deserialize>::Value;

    open spec fn value(&self) -> Self::Value {
        Deserialize::value(&self.fields())
    }

    open spec fn parse(input: Seq<u8>) -> Result<(Self::Value, nat), DeserializeError> {
        RsaPublicKeyFields::parse(input)
    }

    fn deserialize<'a>(data: &mut Reader<'a>) -> (r: Result<Self, DeserializeError>) {
        match RsaPublicKeyFields::deserialize(data) {
            Ok((n, e)) => Ok(
                RSAPublicKey { n, e },
            ),
            Err(e) => Err(e),
        }
    }
}

impl RoundTrip for RSAPublicKey {
    open spec fn well_formed(&self) -> bool {
        self.fields().well_formed()
    }

    proof fn round_trip(&self, rest: Seq<u8>) {
        self.fields().round_trip(rest);
    }
}

} // verus!

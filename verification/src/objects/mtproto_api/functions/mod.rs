//! The requests that the client makes.

#![allow(non_camel_case_types)]

use crate::objects::base::signed_128;
use crate::objects::traits::Serialize;
use crate::objects::traits::TypeId;
use crate::random::Random;
use vstd::prelude::*;

verus! {

/// The first step of the exchange: the client asks for the product to factor.
///
/// Origin: `req_pq_multi#be7e8ef1 nonce:int128 = ResPQ;`
#[derive(Clone, Debug)]
pub struct req_pq_multi {
    /// Selected randomly by the client (random number) and identifies the client within this communication
    pub nonce: i128,
}

impl req_pq_multi {
    /// Create a new instance, with a random nonce.
    pub fn new() -> Self {
        let mut random = Random::new();
        let u: u128 = random.gen_u128();
        Self { nonce: signed_128(u) }
    }
}

impl TypeId for req_pq_multi {
    open spec fn constructor_id() -> u32 {
        0xbe7e8ef1
    }

    fn type_id2() -> (id: u32) {
        0xbe7e8ef1
    }
}

impl Serialize for req_pq_multi {
    open spec fn wire(&self) -> Seq<u8> {
        self.nonce.wire()
    }

    fn serialize(&self, writer: &mut Vec<u8>) {
        self.nonce.serialize(writer);
    }
}

} // verus!

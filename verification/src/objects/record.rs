//! Bare records on the wire: the fields in their order, with nothing between
//! them. A pair is the record of two fields; longer records nest pairs to the
//! right.

use super::error::DeserializeError;
use super::reader::Reader;
use super::traits::Deserialize;
use super::traits::RoundTrip;
use super::traits::Serialize;
use vstd::prelude::*;

verus! {

/// The two values that `input` starts with, one after the other, and the
/// bytes they take together; or the fault of the first that cannot be read.
pub open spec fn pair_parse<A: Deserialize, B: Deserialize>(input: Seq<u8>) -> Result<
    ((A::Value, B::Value), nat),
    DeserializeError,
> {
    match A::parse(input) {
        Err(e) => Err(e),
        Ok((a, n)) => match B::parse(input.skip(n as int)) {
            Err(e) => Err(e),
            Ok((b, m)) => Ok(((a, b), n + m)),
        },
    }
}

impl<A: Serialize, B: Serialize> Serialize for (A, B) {
    open spec fn wire(&self) -> Seq<u8> {
        self.0.wire() + self.1.wire()
    }

    fn serialize(&self, writer: &mut Vec<u8>) {
        self.0.serialize(writer);
        self.1.serialize(writer);
        assert(writer@ =~= old(writer)@ + self.wire());
    }
}

impl<A: Deserialize, B: Deserialize> Deserialize for (A, B) {
    type Value = (A::Value, B::Value);

    open spec fn value(&self) -> (A::Value, B::Value) {
        (self.0.value(), self.1.value())
    }

    open spec fn parse(input: Seq<u8>) -> Result<((A::Value, B::Value), nat), DeserializeError> {
        pair_parse::<A, B>(input)
    }

    fn deserialize<'a>(data: &mut Reader<'a>) -> (r: Result<Self, DeserializeError>) {
        let ghost input = data.remaining();
        let a = match A::deserialize(data) {
            Ok(a) => a,
            Err(e) => {
                return Err(e);
            },
        };
        let b = match B::deserialize(data) {
            Ok(b) => b,
            Err(e) => {
                return Err(e);
            },
        };
        proof {
            let n = A::parse(input).unwrap().1;
            let m = B::parse(input.skip(n as int)).unwrap().1;
            assert(input.skip(n as int).skip(m as int) =~= input.skip((n + m) as int));
        }
        Ok((a, b))
    }
}

impl<A: RoundTrip, B: RoundTrip> RoundTrip for (A, B) {
    open spec fn well_formed(&self) -> bool {
        self.0.well_formed() && self.1.well_formed()
    }

    proof fn round_trip(&self, rest: Seq<u8>) {
        let input = self.wire() + rest;
        assert(input =~= self.0.wire() + (self.1.wire() + rest));
        self.0.round_trip(self.1.wire() + rest);
        assert(input.skip(self.0.wire().len() as int) =~= self.1.wire() + rest);
        self.1.round_trip(rest);
    }
}

} // verus!

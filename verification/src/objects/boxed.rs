//! Boxed values on the wire: the constructor ID of the type, then the value.

use super::error::DeserializeError;
use super::reader::Reader;
use super::traits::Deserialize;
use super::traits::OptDeserialize;
use super::traits::RoundTrip;
use super::traits::Serialize;
use super::traits::Tagged;
use super::traits::TypeId;
use crate::endian::le_bytes;
use crate::endian::lemma_le_bytes_len;
use crate::endian::lemma_pow256_values;
use crate::endian::put_le;
use vstd::prelude::*;

verus! {

/// The value behind the constructor ID `id` at the start of `input`: none,
/// and the four bytes of the ID, where the ID read is another.
pub open spec fn boxed_parse<T: Deserialize>(input: Seq<u8>, id: u32) -> Result<
    (Option<T::Value>, nat),
    DeserializeError,
> {
    match u32::parse(input) {
        Err(e) => Err(e),
        Ok((found, n)) => if found != id {
            Ok((None, n))
        } else {
            match T::parse(input.skip(n as int)) {
                Err(e) => Err(e),
                Ok((v, m)) => Ok((Some(v), n + m)),
            }
        },
    }
}

impl<T: Serialize + TypeId> Serialize for Box<T> {
    open spec fn wire(&self) -> Seq<u8> {
        le_bytes(T::constructor_id() as nat, 4) + (**self).wire()
    }

    fn serialize(&self, writer: &mut Vec<u8>) {
        let id: u32 = (**self).type_id();
        put_le(writer, id as u128, 4);
        (**self).serialize(writer);
        assert(writer@ =~= old(writer)@ + self.wire());
    }
}

impl<T: Deserialize + TypeId> OptDeserialize for Box<T> {
    type Value = T::Value;

    open spec fn value(&self) -> T::Value {
        Deserialize::value(&**self)
    }

    open spec fn opt_parse(input: Seq<u8>) -> Result<(Option<T::Value>, nat), DeserializeError> {
        boxed_parse::<T>(input, T::constructor_id())
    }

    fn opt_deserialize<'a>(data: &mut Reader<'a>) -> (r: Result<Option<Self>, DeserializeError>) {
        let ghost input = data.remaining();
        let type_id: u32 = match u32::deserialize(data) {
            Ok(id) => id,
            Err(e) => {
                return Err(e);
            },
        };
        if type_id != T::type_id2() {
            return Ok(None);
        }
        match T::deserialize(data) {
            Ok(v) => {
                proof {
                    let m = T::parse(input.skip(4)).unwrap().1;
                    assert(input.skip(4).skip(m as int) =~= input.skip(4 + m as int));
                }
                Ok(Some(Box::new(v)))
            },
            Err(e) => Err(e),
        }
    }
}

impl<T: Serialize + TypeId> Tagged for Box<T> {
    open spec fn tag(&self) -> u32 {
        T::constructor_id()
    }

    proof fn starts_with_tag(&self) {
        lemma_le_bytes_len(T::constructor_id() as nat, 4);
        assert(self.wire().take(4) =~= le_bytes(T::constructor_id() as nat, 4));
    }
}

/// Behind its constructor ID, a boxed value is on the wire as it is bare.
pub proof fn lemma_boxed_wire<T: Serialize + TypeId>(v: Box<T>)
    ensures
        v.wire().skip(4) == (*v).wire(),
{
    lemma_le_bytes_len(T::constructor_id() as nat, 4);
    assert(v.wire().skip(4) =~= (*v).wire());
}

/// Reading back a boxed value: the ID is found, then the value behind it.
pub proof fn lemma_boxed_round_trip<T: RoundTrip + TypeId>(v: T, rest: Seq<u8>)
    requires
        v.well_formed(),
    ensures
        boxed_parse::<T>(
            le_bytes(T::constructor_id() as nat, 4) + v.wire() + rest,
            T::constructor_id(),
        ) == Ok::<(Option<T::Value>, nat), DeserializeError>(
            (Some(Deserialize::value(&v)), 4 + v.wire().len()),
        ),
{
    let id = le_bytes(T::constructor_id() as nat, 4);
    let input = id + v.wire() + rest;
    lemma_pow256_values();
    lemma_le_bytes_len(T::constructor_id() as nat, 4);
    assert(input =~= id + (v.wire() + rest));
    super::base::lemma_parse_le_of_bytes(T::constructor_id() as nat, 4, v.wire() + rest);
    assert(input.skip(4) =~= v.wire() + rest);
    v.round_trip(rest);
}

impl<T: RoundTrip + TypeId> RoundTrip for Box<T> {
    open spec fn well_formed(&self) -> bool {
        (**self).well_formed()
    }

    proof fn round_trip(&self, rest: Seq<u8>) {
        lemma_boxed_round_trip::<T>(**self, rest);
        lemma_le_bytes_len(T::constructor_id() as nat, 4);
    }
}

} // verus!

//! The traits of the codec: constructor IDs, encoding, decoding, and the
//! law that ties the two together.

use super::error::DeserializeError;
use super::reader::Reader;
use crate::buffer::buffer_from;
use crate::buffer::contents;
use crate::endian::le_bytes;
use bytes::BytesMut;
use vstd::prelude::*;

verus! {

/// A type that has a constructor ID.
pub trait TypeId {
    /// The constructor ID of the type: the same for every value of it.
    spec fn constructor_id() -> u32;

    /// The constructor ID of this value's type.
    fn type_id(&self) -> (id: u32)
        ensures
            id == Self::constructor_id(),
    {
        Self::type_id2()
    }

    /// The constructor ID of the type.
    fn type_id2() -> (id: u32)
        ensures
            id == Self::constructor_id(),
    ;
}

/// A type whose values can be written to the wire.
pub trait Serialize {
    /// The bytes that this value is on the wire.
    spec fn wire(&self) -> Seq<u8>;

    /// Appends the wire form of this value to `writer`.
    fn serialize(&self, writer: &mut Vec<u8>)
        ensures
            final(writer)@ == old(writer)@ + self.wire(),
    ;

    /// The wire form of this value, in a buffer.
    fn serialize_to_bytes(&self) -> (bytes: BytesMut)
        ensures
            contents(bytes) == self.wire(),
    {
        let v = self.serialize_to_vec();
        buffer_from(v.as_slice())
    }

    /// The wire form of this value, in a vector.
    fn serialize_to_vec(&self) -> (v: Vec<u8>)
        ensures
            v@ == self.wire(),
    {
        let mut v: Vec<u8> = Vec::new();
        self.serialize(&mut v);
        assert(Seq::<u8>::empty() + self.wire() =~= self.wire());
        v
    }
}

/// What a decoder owes: on success the value that the input spells and a
/// reader moved past it, on failure the fault of the input.
pub open spec fn decoded<V>(
    got: Result<V, DeserializeError>,
    expected: Result<(V, nat), DeserializeError>,
    before: Seq<u8>,
    after: Seq<u8>,
) -> bool {
    match (got, expected) {
        (Ok(v), Ok((m, n))) => v == m && n <= before.len() && after == before.skip(n as int),
        (Err(e), Err(f)) => e == f,
        _ => false,
    }
}

/// A type whose values can be read from the wire.
pub trait Deserialize: Sized {
    /// What a value of the type is, mathematically.
    type Value;

    /// The mathematical value of `self`.
    spec fn value(&self) -> Self::Value;

    /// The value that `input` starts with and the number of bytes it takes,
    /// or the reason why `input` starts with no value.
    spec fn parse(input: Seq<u8>) -> Result<(Self::Value, nat), DeserializeError>;

    /// Reads one value from `data`.
    fn deserialize<'a>(data: &mut Reader<'a>) -> (r: Result<Self, DeserializeError>)
        ensures
            decoded(
                match r {
                    Ok(v) => Ok(v.value()),
                    Err(e) => Err(e),
                },
                Self::parse(old(data).remaining()),
                old(data).remaining(),
                final(data).remaining(),
            ),
    ;

    /// Reads one value from the start of `data`.
    fn deserialize_from_bytes(data: &[u8]) -> (r: Result<Self, DeserializeError>)
        ensures
            match (r, Self::parse(data@)) {
                (Ok(v), Ok((m, _))) => v.value() == m,
                (Err(e), Err(f)) => e == f,
                _ => false,
            },
    {
        let mut reader = Reader::new(data);
        Self::deserialize(&mut reader)
    }
}

/// A type whose values are read from the wire behind a constructor ID, and
/// which may find that the ID is not its own.
pub trait OptDeserialize: Sized {
    /// What a value of the type is, mathematically.
    type Value;

    /// The mathematical value of `self`.
    spec fn value(&self) -> Self::Value;

    /// The value that `input` starts with and the number of bytes it takes;
    /// no value, and the four bytes of the ID, where the ID belongs to no
    /// variant; or the reason why `input` cannot be read.
    spec fn opt_parse(input: Seq<u8>) -> Result<(Option<Self::Value>, nat), DeserializeError>;

    /// Reads a constructor ID from `data`, and the value behind it if the ID is known.
    fn opt_deserialize<'a>(data: &mut Reader<'a>) -> (r: Result<Option<Self>, DeserializeError>)
        ensures
            decoded(
                match r {
                    Ok(Some(v)) => Ok(Some(v.value())),
                    Ok(None) => Ok(None),
                    Err(e) => Err(e),
                },
                Self::opt_parse(old(data).remaining()),
                old(data).remaining(),
                final(data).remaining(),
            ),
    ;

    /// Reads a constructor ID from the start of `data`, and the value behind it if the ID is known.
    fn opt_deserialize_from_bytes(data: &[u8]) -> (r: Result<Option<Self>, DeserializeError>)
        ensures
            match (r, Self::opt_parse(data@)) {
                (Ok(Some(v)), Ok((Some(m), _))) => v.value() == m,
                (Ok(None), Ok((None, _))) => true,
                (Err(e), Err(f)) => e == f,
                _ => false,
            },
    {
        let mut reader = Reader::new(data);
        Self::opt_deserialize(&mut reader)
    }
}

impl<T: OptDeserialize> Deserialize for T {
    type Value = <T as OptDeserialize>::Value;

    open spec fn value(&self) -> Self::Value {
        OptDeserialize::value(self)
    }

    open spec fn parse(input: Seq<u8>) -> Result<(Self::Value, nat), DeserializeError> {
        match T::opt_parse(input) {
            Ok((Some(v), n)) => Ok((v, n)),
            Ok((None, _)) => Err(DeserializeError::NoVariant),
            Err(e) => Err(e),
        }
    }

    fn deserialize<'a>(data: &mut Reader<'a>) -> (r: Result<Self, DeserializeError>) {
        match T::opt_deserialize(data) {
            Ok(Some(v)) => Ok(v),
            Ok(None) => Err(DeserializeError::NoVariant),
            Err(e) => Err(e),
        }
    }
}

/// A type whose values go over the wire behind a constructor ID.
pub trait Tagged: Serialize {
    /// The constructor ID that this value goes behind.
    spec fn tag(&self) -> u32;

    /// The wire form of the value starts with its constructor ID, in four
    /// bytes, least significant first.
    proof fn starts_with_tag(&self)
        ensures
            self.wire().take(4) == le_bytes(self.tag() as nat, 4),
    ;
}

/// A type whose values come back from the wire as they went.
pub trait RoundTrip: Serialize + Deserialize {
    /// Whether the wire format can carry this value: its lengths fit their
    /// length fields, and a string holds no zero byte.
    spec fn well_formed(&self) -> bool;

    /// Decoding the wire form of a well-formed value gives that value and
    /// takes exactly its bytes, whatever follows them.
    proof fn round_trip(&self, rest: Seq<u8>)
        requires
            self.well_formed(),
        ensures
            Self::parse(self.wire() + rest) == Ok::<(Self::Value, nat), DeserializeError>(
                (Deserialize::value(self), self.wire().len()),
            ),
    ;
}

} // verus!

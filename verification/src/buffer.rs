//! What the library assumes of `bytes::BytesMut`, the buffer that carries
//! byte strings through it. Nothing here is proved: each contract restates the
//! documented behaviour of the method it is attached to.

use bytes::BytesMut;
use vstd::prelude::*;

verus! {

/// `bytes::BytesMut`, a growable buffer of bytes. Verus sees nothing inside it.
#[verifier::external_type_specification]
#[verifier::external_body]
pub struct ExBytesMut(bytes::BytesMut);

/// The bytes that a buffer holds, in order.
pub uninterp spec fn contents(b: BytesMut) -> Seq<u8>;

/// `BytesMut::new` gives a buffer of length zero.
pub assume_specification[ bytes::BytesMut::new ]() -> (b: BytesMut)
    ensures
        contents(b) == Seq::<u8>::empty(),
;

/// `BytesMut::with_capacity` gives a buffer that holds no data, whatever its capacity.
pub assume_specification[ bytes::BytesMut::with_capacity ](capacity: usize) -> (b: BytesMut)
    ensures
        contents(b) == Seq::<u8>::empty(),
;

/// `BytesMut::len` is the number of bytes held.
pub assume_specification[ bytes::BytesMut::len ](b: &BytesMut) -> (n: usize)
    ensures
        n == contents(*b).len(),
;

/// `BytesMut::extend_from_slice` appends the given bytes.
pub assume_specification[ bytes::BytesMut::extend_from_slice ](b: &mut BytesMut, extend: &[u8])
    ensures
        contents(*final(b)) == contents(*old(b)) + extend@,
;

/// `BytesMut::clone` gives a buffer with the same bytes.
pub assume_specification[ <bytes::BytesMut as Clone>::clone ](b: &BytesMut) -> (c: BytesMut)
    ensures
        contents(c) == contents(*b),
;

/// The bytes of a buffer as a slice, through `AsRef<[u8]>`.
#[verifier::external_body]
pub(crate) fn as_slice(b: &BytesMut) -> (s: &[u8])
    ensures
        s@ == contents(*b),
{
    b.as_ref()
}

/// A buffer that holds a copy of `bytes`.
pub fn buffer_from(bytes: &[u8]) -> (b: BytesMut)
    ensures
        contents(b) == bytes@,
{
    let mut b = BytesMut::with_capacity(bytes.len());
    b.extend_from_slice(bytes);
    assert(Seq::<u8>::empty() + bytes@ =~= bytes@);
    b
}

} // verus!

use vstd::prelude::*;
use bytes::Buf;
use bytes::BufMut;
use bytes::BytesMut;

verus! {

/// `bytes::BytesMut`, the receive and send buffer of a link, opaque here; its
/// bytes are known through `bytes_of`.
#[verifier::external_type_specification]
#[verifier::external_body]
pub struct ExBytesMut(BytesMut);

/// The bytes that a `BytesMut` holds, in order.
pub uninterp spec fn bytes_of(b: BytesMut) -> Seq<u8>;

/// Relies on `<[u8]>::to_vec` over `BytesMut`'s `Deref`: a copy of the bytes held.
#[verifier::external_body]
pub(crate) fn copy_bytes(b: &BytesMut) -> (r: Vec<u8>)
    ensures
        r@ == bytes_of(*b),
{
    b.to_vec()
}

/// Relies on `<BytesMut as Buf>::advance`: drops the first `n` bytes (it panics
/// past the end, which `requires` leaves out).
#[verifier::external_body]
pub(crate) fn advance_bytes(b: &mut BytesMut, n: usize)
    requires
        n <= bytes_of(*old(b)).len(),
    ensures
        bytes_of(*final(b)) == bytes_of(*old(b)).skip(n as int),
{
    b.advance(n)
}

/// Relies on `<BytesMut as BufMut>::put_slice`: appends the bytes of `data`.
#[verifier::external_body]
pub(crate) fn put_bytes(b: &mut BytesMut, data: &[u8])
    ensures
        bytes_of(*final(b)) == bytes_of(*old(b)) + data@,
{
    b.put_slice(data)
}

/// Relies on `BytesMut::reserve`: room for at least `additional` more bytes,
/// the bytes held unchanged (it panics only where the new capacity would
/// overflow `usize`, which no allocated buffer comes near for one byte).
#[verifier::external_body]
pub(crate) fn reserve_bytes(b: &mut BytesMut, additional: usize)
    ensures
        bytes_of(*final(b)) == bytes_of(*old(b)),
{
    b.reserve(additional)
}

} // verus!

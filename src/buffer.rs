//! The shared byte buffer of the `bytes` crate, as the library sees it.
use bytes::Bytes;
use vstd::prelude::*;

verus! {

#[verifier::external_type_specification]
#[verifier::external_body]
pub struct ExBytes(Bytes);

/// The bytes that a buffer still holds, from its cursor on.
pub uninterp spec fn bytes_content(b: Bytes) -> Seq<u8>;

/// `Bytes::clone`, used by the derived `Clone` of the adapter: the clone views the
/// same bytes (it shares the region, or copies it for the inline kinds).
pub assume_specification[ <Bytes as Clone>::clone ](b: &Bytes) -> (r: Bytes)
    ensures
        bytes_content(r) == bytes_content(*b),
;

/// Relies on `<Bytes as bytes::Buf>::remaining`, which is `Bytes::len`: the number of
/// bytes the buffer still holds.
#[verifier::external_body]
pub(crate) fn remaining(b: &Bytes) -> (r: usize)
    ensures
        r == bytes_content(*b).len(),
{
    bytes::Buf::remaining(b)
}

/// Relies on `<Bytes as bytes::Buf>::copy_to_bytes`, which is `Bytes::split_to`: the
/// first `n` bytes come out as a buffer of their own and the rest stay. It panics
/// when `n` exceeds the length, which `requires` leaves out.
#[verifier::external_body]
pub(crate) fn take_front(b: &mut Bytes, n: usize) -> (r: Bytes)
    requires
        n <= bytes_content(*old(b)).len(),
    ensures
        bytes_content(r) == bytes_content(*old(b)).take(n as int),
        bytes_content(*final(b)) == bytes_content(*old(b)).skip(n as int),
{
    bytes::Buf::copy_to_bytes(b, n)
}

} // verus!

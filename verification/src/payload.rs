//! Payload bytes: what the `bytes` crate's buffers hold, and the few calls
//! that the reassembly makes on them.
//!
//! Nothing here is proved: the contracts say what the `bytes` crate does.

use bytes::{Bytes, BytesMut};
use vstd::prelude::*;

verus! {

/// `bytes::Bytes`, an immutable run of bytes that is cheap to clone.
#[verifier::external_type_specification]
#[verifier::external_body]
pub struct ExBytes(bytes::Bytes);

/// `bytes::BytesMut`, a growable run of bytes.
#[verifier::external_type_specification]
#[verifier::external_body]
pub struct ExBytesMut(bytes::BytesMut);

/// The bytes that a `Bytes` holds, in order.
pub uninterp spec fn bytes_content(b: &Bytes) -> Seq<u8>;

/// The bytes that a `BytesMut` holds, in order.
pub uninterp spec fn bytes_mut_content(b: &BytesMut) -> Seq<u8>;

/// `Bytes::len` gives the number of bytes held.
pub assume_specification[ Bytes::len ](b: &Bytes) -> (n: usize)
    ensures
        n == bytes_content(b).len(),
;

/// `BytesMut::new` gives a buffer that holds no bytes.
pub assume_specification[ BytesMut::new ]() -> (b: BytesMut)
    ensures
        bytes_mut_content(&b) == Seq::<u8>::empty(),
;

/// `BytesMut::freeze` turns the buffer into a `Bytes` that holds the same
/// bytes.
pub assume_specification[ BytesMut::freeze ](b: BytesMut) -> (frozen: Bytes)
    ensures
        bytes_content(&frozen) == bytes_mut_content(&b),
;

/// `BytesMut`'s `Extend<u8>`: `extend`, handed a `Bytes`, walks its bytes and
/// puts each at the end of the buffer, so that the buffer then holds what it
/// held, followed by the bytes of the `Bytes`. The buffer grows as needed;
/// growing beyond `isize::MAX` bytes panics, so the caller keeps the sum
/// within that.
#[verifier::external_body]
pub(crate) fn append_bytes(acc: &mut BytesMut, chunk: Bytes)
    requires
        bytes_mut_content(old(acc)).len() + bytes_content(&chunk).len() <= isize::MAX,
    ensures
        bytes_mut_content(final(acc)) == bytes_mut_content(old(acc)) + bytes_content(&chunk),
{
    acc.extend(chunk);
}

} // verus!

//! Shared immutable byte buffers.
//!
//! Tiles are held in `bytes::Bytes`, so that a cache can hand out a tile
//! without copying its pixels. To the verifier such a buffer is opaque; the
//! items below say what it holds.

use vstd::prelude::*;

verus! {

/// `bytes::Bytes`, made known so that it can stand in fields and
/// signatures.
#[verifier::external_type_specification]
#[verifier::external_body]
pub struct ExBytes(bytes::Bytes);

/// The bytes that a buffer holds.
pub uninterp spec fn shared_bytes(b: bytes::Bytes) -> Seq<u8>;

/// `Bytes::from(Vec<u8>)`: the buffer takes over the vector and holds
/// exactly its bytes.
#[verifier::external_body]
pub(crate) fn share(v: Vec<u8>) -> (b: bytes::Bytes)
    ensures
        shared_bytes(b) == v@,
{
    bytes::Bytes::from(v)
}

/// `Bytes::as_ref`: the buffer's bytes as a slice.
#[verifier::external_body]
pub(crate) fn shared_slice(b: &bytes::Bytes) -> (s: &[u8])
    ensures
        s@ == shared_bytes(*b),
{
    b.as_ref()
}

/// `Bytes::clone`: a second handle on the same bytes.
pub assume_specification[ <bytes::Bytes as Clone>::clone ](b: &bytes::Bytes) -> (c: bytes::Bytes)
    ensures
        shared_bytes(c) == shared_bytes(*b),
;

} // verus!

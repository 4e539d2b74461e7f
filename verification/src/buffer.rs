//! The byte containers of the `bytes` crate: what each of its functions used here does.

use bytes::{Bytes, BytesMut};
use vstd::prelude::*;

verus! {

/// `bytes::BytesMut`, a growable run of bytes.
#[verifier::external_type_specification]
#[verifier::external_body]
pub struct ExBytesMut(BytesMut);

/// `bytes::Bytes`, an immutable run of bytes.
#[verifier::external_type_specification]
#[verifier::external_body]
pub struct ExBytes(Bytes);

/// The bytes that a `BytesMut` holds, in order.
pub uninterp spec fn buffered_bytes(buffer: BytesMut) -> Seq<u8>;

/// The bytes that a `Bytes` holds, in order.
pub uninterp spec fn chunk_bytes(chunk: Bytes) -> Seq<u8>;

/// Whether a `BytesMut` of this length can take this many more bytes, whatever it has
/// allocated.
///
/// It doubles an allocation that is too small for the bytes. Bytes split off earlier may
/// lie in front of them in the same allocation; where there is room enough with that part,
/// the allocation is still doubled if the part is shorter than the bytes held. So less than
/// twice `2 * len + additional` is asked for, and an allocation of more than `isize::MAX`
/// bytes makes it panic. Nothing is asked for where nothing is added.
pub open spec fn can_grow(len: nat, additional: nat) -> bool {
    additional == 0 || 2 * (2 * len + additional) <= isize::MAX
}

/// The bound of [`can_grow`] on what is allocated: less than twice the bytes added and twice
/// those held, together, is asked for.
pub proof fn law_growth_is_bounded(len: nat, additional: nat)
    ensures
        can_grow(len, 0),
        additional > 0 ==> (can_grow(len, additional) <==> 4 * len + 2 * additional <= isize::MAX),
{
}

/// `BytesMut::new` holds nothing.
pub assume_specification[ BytesMut::new ]() -> (buffer: BytesMut)
    ensures
        buffered_bytes(buffer) == Seq::<u8>::empty(),
;

/// `BytesMut::len` is the number of bytes held.
pub assume_specification[ BytesMut::len ](buffer: &BytesMut) -> (len: usize)
    ensures
        len == buffered_bytes(*buffer).len(),
;

/// `BytesMut::is_empty` tells whether no byte is held.
pub assume_specification[ BytesMut::is_empty ](buffer: &BytesMut) -> (empty: bool)
    ensures
        empty == (buffered_bytes(*buffer).len() == 0),
;

/// `BytesMut::extend_from_slice` appends a copy of the slice.
///
/// It panics where the capacity that it asks for is too large: the precondition keeps away
/// from that.
pub assume_specification[ BytesMut::extend_from_slice ](buffer: &mut BytesMut, extend: &[u8])
    requires
        can_grow(buffered_bytes(*old(buffer)).len(), extend@.len()),
    ensures
        buffered_bytes(*final(buffer)) == buffered_bytes(*old(buffer)) + extend@,
;

/// `BytesMut::split` takes all the bytes out and leaves the buffer empty.
pub assume_specification[ BytesMut::split ](buffer: &mut BytesMut) -> (taken: BytesMut)
    ensures
        buffered_bytes(taken) == buffered_bytes(*old(buffer)),
        buffered_bytes(*final(buffer)) == Seq::<u8>::empty(),
;

/// `BytesMut::freeze` keeps the bytes.
pub assume_specification[ BytesMut::freeze ](buffer: BytesMut) -> (chunk: Bytes)
    ensures
        chunk_bytes(chunk) == buffered_bytes(buffer),
;

/// `to_vec` on the slice behind a `Bytes` copies its bytes, in order.
#[verifier::external_body]
pub(crate) fn chunk_to_vec(chunk: Bytes) -> (data: Vec<u8>)
    ensures
        data@ == chunk_bytes(chunk),
{
    chunk.to_vec()
}

/// `Bytes::from` on a vector keeps the bytes.
#[verifier::external_body]
pub(crate) fn chunk_from_vec(data: Vec<u8>) -> (chunk: Bytes)
    ensures
        chunk_bytes(chunk) == data@,
{
    data.into()
}

} // verus!

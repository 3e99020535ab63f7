//! The response buffer: heapless's fixed-capacity `Vec<u8, 256>`, used through
//! the few operations the protocol needs.
use vstd::prelude::*;

verus! {

#[verifier::external_type_specification]
#[verifier::external_body]
#[verifier::reject_recursive_types(T)]
pub struct ExHeaplessVec<T, const N: usize>(heapless::Vec<T, N>);

/// The bytes held by a 256-byte heapless buffer, in order.
pub uninterp spec fn frame_bytes(v: heapless::Vec<u8, 256>) -> Seq<u8>;

/// `heapless::Vec::new`: an empty buffer.
#[verifier::external_body]
pub(crate) fn frame_new() -> (v: heapless::Vec<u8, 256>)
    ensures
        frame_bytes(v) == Seq::<u8>::empty(),
{
    heapless::Vec::new()
}

/// `heapless::Vec::push`: appends `byte` when fewer than 256 bytes are held;
/// otherwise hands `byte` back and leaves the buffer unchanged.
#[verifier::external_body]
pub(crate) fn frame_push(v: &mut heapless::Vec<u8, 256>, byte: u8) -> (r: Result<(), u8>)
    ensures
        r is Ok <==> frame_bytes(*old(v)).len() < 256,
        r is Ok ==> frame_bytes(*final(v)) == frame_bytes(*old(v)).push(byte),
        r is Err ==> frame_bytes(*final(v)) == frame_bytes(*old(v)),
        r matches Err(b) ==> b == byte,
{
    v.push(byte)
}

/// `heapless::Vec::extend_from_slice`: appends all of `bytes` when they fit in
/// the 256-byte capacity; otherwise fails and leaves the buffer unchanged.
#[verifier::external_body]
pub(crate) fn frame_extend(v: &mut heapless::Vec<u8, 256>, bytes: &[u8]) -> (r: Result<(), ()>)
    ensures
        r is Ok <==> frame_bytes(*old(v)).len() + bytes@.len() <= 256,
        r is Ok ==> frame_bytes(*final(v)) == frame_bytes(*old(v)) + bytes@,
        r is Err ==> frame_bytes(*final(v)) == frame_bytes(*old(v)),
{
    v.extend_from_slice(bytes)
}

/// `heapless::Vec::as_slice`: the held bytes as a slice.
#[verifier::external_body]
pub(crate) fn frame_as_slice(v: &heapless::Vec<u8, 256>) -> (s: &[u8])
    ensures
        s@ == frame_bytes(*v),
{
    v.as_slice()
}

} // verus!

//! Trusted interface to the bounded accumulation buffer.
//!
//! The relay stores not-yet-parsed device-channel bytes in a
//! `heapless::Vec<u8, 256>`: a vector of fixed capacity that never
//! allocates. The type and the few methods the relay calls are declared
//! here; their contracts state what the crate's source shows, over the
//! uninterpreted sequence of bytes the buffer holds.

use vstd::prelude::*;

verus! {

#[verifier::external_type_specification]
#[verifier::external_body]
#[verifier::reject_recursive_types(T)]
pub struct ExHeaplessVec<T, const N: usize>(heapless::Vec<T, N>);

/// The bytes a bounded buffer holds, front first.
pub uninterp spec fn contents(v: heapless::Vec<u8, 256>) -> Seq<u8>;

/// Relies on `heapless::Vec::new`: a freshly constructed vector is empty.
#[verifier::external_body]
pub(crate) fn buf_new() -> (r: heapless::Vec<u8, 256>)
    ensures
        contents(r) == Seq::<u8>::empty(),
{
    heapless::Vec::new()
}

/// Relies on `heapless::Vec::as_slice`: a slice of all stored elements,
/// front first.
#[verifier::external_body]
pub(crate) fn buf_as_slice(v: &heapless::Vec<u8, 256>) -> (r: &[u8])
    ensures
        r@ == contents(*v),
{
    v.as_slice()
}

/// Relies on `heapless::Vec::extend_from_slice`: when the stored bytes and
/// `other` together fit within the capacity of 256 it appends all of
/// `other` in order and returns `Ok`; otherwise it changes nothing and
/// returns `Err`.
#[verifier::external_body]
pub(crate) fn buf_extend(v: &mut heapless::Vec<u8, 256>, other: &[u8]) -> (r: Result<(), ()>)
    ensures
        contents(*old(v)).len() + other@.len() <= 256 ==> r is Ok
            && contents(*final(v)) == contents(*old(v)) + other@,
        contents(*old(v)).len() + other@.len() > 256 ==> r is Err
            && contents(*final(v)) == contents(*old(v)),
{
    v.extend_from_slice(other)
}

/// Relies on `heapless::Vec::clear`: removes every stored element.
#[verifier::external_body]
pub(crate) fn buf_clear(v: &mut heapless::Vec<u8, 256>)
    ensures
        contents(*final(v)) == Seq::<u8>::empty(),
{
    v.clear()
}

} // verus!

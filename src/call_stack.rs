//! The bounded call stack, held in an `arrayvec::ArrayVec`.

use arrayvec::ArrayVec;
use vstd::prelude::*;

verus! {

/// Number of return addresses the call stack can hold.
pub const STACK_CAPACITY: usize = 100;

/// The storage of the call stack: arrayvec's fixed-capacity vector.
#[verifier::external_type_specification]
#[verifier::external_body]
#[verifier::reject_recursive_types(T)]
pub struct ExArrayVec<T, const CAP: usize>(ArrayVec<T, CAP>);

/// The return addresses held by a call stack, oldest first.
pub uninterp spec fn stack_items(s: ArrayVec<u16, 100>) -> Seq<u16>;

/// Relies on `ArrayVec::new`: a new vector holds no element.
#[verifier::external_body]
pub(crate) fn stack_new() -> (r: ArrayVec<u16, 100>)
    ensures
        stack_items(r) == Seq::<u16>::empty(),
{
    ArrayVec::new()
}

/// Relies on `ArrayVec::len`: the number of elements held.
#[verifier::external_body]
pub(crate) fn stack_len(s: &ArrayVec<u16, 100>) -> (r: usize)
    ensures
        r == stack_items(*s).len(),
{
    s.len()
}

/// Relies on `ArrayVec::push`: appends at the end; it panics when the vector
/// is full, so a caller keeps the length below the capacity.
#[verifier::external_body]
pub(crate) fn stack_push(s: &mut ArrayVec<u16, 100>, value: u16)
    requires
        stack_items(*old(s)).len() < STACK_CAPACITY,
    ensures
        stack_items(*final(s)) == stack_items(*old(s)).push(value),
{
    s.push(value)
}

/// Relies on `ArrayVec::pop`: removes and returns the last element, or
/// returns `None` and changes nothing when the vector is empty.
#[verifier::external_body]
pub(crate) fn stack_pop(s: &mut ArrayVec<u16, 100>) -> (r: Option<u16>)
    ensures
        stack_items(*old(s)).len() == 0 ==> r is None && stack_items(*final(s)) == stack_items(*old(s)),
        stack_items(*old(s)).len() > 0 ==> r == Some(stack_items(*old(s)).last())
            && stack_items(*final(s)) == stack_items(*old(s)).drop_last(),
{
    s.pop()
}

} // verus!

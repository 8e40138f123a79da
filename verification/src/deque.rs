//! The double-ended queue of the `slice_deque` crate, as far as the window
//! buffer uses it. Nothing in this file is proved: each contract restates what
//! the queue's implementation does to the bytes it holds.

use slice_deque::SliceDeque;
use vstd::prelude::*;

verus! {

/// `slice_deque::SliceDeque`, a growable ring buffer whose contents are always
/// readable as one contiguous slice. Its fields are raw pointers into mirrored
/// memory and stay hidden.
#[verifier::external_type_specification]
#[verifier::external_body]
#[verifier::reject_recursive_types(T)]
pub struct ExSliceDeque<T>(SliceDeque<T>);

/// The bytes a queue holds, front first: what `SliceDeque::as_slice` would
/// return for it.
pub uninterp spec fn deque_contents(deque: SliceDeque<u8>) -> Seq<u8>;

/// `SliceDeque::from(&[u8])`: a new queue holding a copy of `bytes`, in the
/// same order. The crate allocates room for `bytes.len()` elements and pushes
/// each one at the back. Like `Vec`, it gives up only when the memory cannot
/// be had.
#[verifier::external_body]
pub(crate) fn deque_from_slice(bytes: &[u8]) -> (deque: SliceDeque<u8>)
    ensures
        deque_contents(deque) == bytes@,
{
    SliceDeque::from(bytes)
}

/// `SliceDeque::push_back`: appends `byte` behind the last element and leaves
/// the others where they are. The queue grows its memory when it is full, so
/// the call gives up only when the memory cannot be had.
#[verifier::external_body]
pub(crate) fn deque_push_back(deque: &mut SliceDeque<u8>, byte: u8)
    ensures
        deque_contents(*final(deque)) == deque_contents(*old(deque)).push(byte),
{
    deque.push_back(byte)
}

/// `SliceDeque::pop_front`: removes the first element and returns it; on an
/// empty queue it returns `None` and changes nothing.
#[verifier::external_body]
pub(crate) fn deque_pop_front(deque: &mut SliceDeque<u8>) -> (front: Option<u8>)
    ensures
        deque_contents(*old(deque)).len() == 0 ==> front.is_none() && deque_contents(
            *final(deque),
        ) == deque_contents(*old(deque)),
        deque_contents(*old(deque)).len() > 0 ==> front == Some(deque_contents(*old(deque))[0])
            && deque_contents(*final(deque)) == deque_contents(*old(deque)).drop_first(),
{
    deque.pop_front()
}

/// `SliceDeque::as_slice`: the whole contents as one slice, front first.
#[verifier::external_body]
pub(crate) fn deque_as_slice(deque: &SliceDeque<u8>) -> (bytes: &[u8])
    ensures
        bytes@ == deque_contents(*deque),
{
    deque.as_slice()
}

} // verus!

//! The window buffer: the most recent bytes of the stream, up to a fixed
//! capacity.

use crate::deque::{
    deque_as_slice, deque_contents, deque_from_slice, deque_pop_front, deque_push_back,
};
use crate::error::ScanError;
use slice_deque::SliceDeque;
use vstd::prelude::*;
use vstd::slice::slice_subrange;

verus! {

/// What a window of capacity `capacity` holds after `next_byte` has arrived:
/// the byte is appended, and the oldest byte leaves if the window was full.
pub open spec fn slid(window: Seq<u8>, capacity: nat, next_byte: u8) -> Seq<u8> {
    if window.len() >= capacity {
        window.drop_first().push(next_byte)
    } else {
        window.push(next_byte)
    }
}

/// A fixed-capacity circular byte buffer. It holds the most recent bytes of
/// the stream: all of them while fewer than `capacity` have arrived, the last
/// `capacity` of them afterwards.
pub struct WindowBuffer {
    bytes: SliceDeque<u8>,
    capacity: usize,
}

impl View for WindowBuffer {
    type V = Seq<u8>;

    /// The bytes in the buffer, oldest first.
    closed spec fn view(&self) -> Seq<u8> {
        deque_contents(self.bytes)
    }
}

impl WindowBuffer {
    /// The largest number of bytes the buffer holds.
    pub closed spec fn spec_capacity(&self) -> nat {
        self.capacity as nat
    }

    /// The buffer never holds more than its capacity, and the capacity is at
    /// least one byte.
    pub open spec fn wf(&self) -> bool {
        &&& 1 <= self.spec_capacity()
        &&& self@.len() <= self.spec_capacity()
    }

    /// Creates the buffer for a target of `target_length` bytes with the given
    /// context sizes, and seeds it with the first chunk read from the stream.
    /// A chunk shorter than the target cannot hold a match: it is refused as
    /// insufficient input.
    pub fn initialize(
        before_context: usize,
        target_length: usize,
        after_context: usize,
        bytes: &[u8],
    ) -> (outcome: Result<WindowBuffer, ScanError>)
        requires
            1 <= target_length,
            before_context + target_length + after_context <= usize::MAX,
            bytes@.len() <= before_context + target_length + after_context,
        ensures
            match outcome {
                Ok(buffer) => {
                    &&& target_length <= bytes@.len()
                    &&& buffer.wf()
                    &&& buffer@ == bytes@
                    &&& buffer.spec_capacity() == before_context + target_length + after_context
                },
                Err(error) => bytes@.len() < target_length && error == ScanError::InsufficientInput,
            },
    {
        if bytes.len() < target_length {
            return Err(ScanError::InsufficientInput);
        }
        let capacity = before_context + target_length + after_context;
        Ok(WindowBuffer { bytes: deque_from_slice(bytes), capacity })
    }

    /// Takes the next byte of the stream in, evicting the oldest byte if the
    /// buffer is at capacity.
    pub fn slide(&mut self, next_byte: u8)
        requires
            old(self).wf(),
        ensures
            final(self).wf(),
            final(self)@ == slid(old(self)@, old(self).spec_capacity(), next_byte),
            final(self).spec_capacity() == old(self).spec_capacity(),
    {
        if self.current_length() >= self.capacity {
            let _ = deque_pop_front(&mut self.bytes);
        }
        deque_push_back(&mut self.bytes, next_byte);
    }

    /// The bytes at positions `start..end` of the buffer.
    pub fn slice(&self, start: usize, end: usize) -> (bytes: &[u8])
        requires
            start <= end <= self@.len(),
        ensures
            bytes@ == self@.subrange(start as int, end as int),
    {
        slice_subrange(deque_as_slice(&self.bytes), start, end)
    }

    /// The largest number of bytes the buffer holds.
    pub fn capacity(&self) -> (capacity: usize)
        ensures
            capacity == self.spec_capacity(),
    {
        self.capacity
    }

    /// The number of bytes in the buffer now.
    pub fn current_length(&self) -> (length: usize)
        ensures
            length == self@.len(),
    {
        deque_as_slice(&self.bytes).len()
    }
}

} // verus!

//! The match check: one comparison of the window against the target.

use crate::occurrence::{
    context_end, context_start, found_at, optional_view, shifted, MatchRecord, Occurrence,
};
use crate::window::WindowBuffer;
use vstd::prelude::*;
use vstd::slice::slice_to_vec;

verus! {

/// The outcome of one match check on `window`: if the bytes at
/// `target_offset..after_offset` are the target, the match at stream position
/// `global_target_offset + target_offset`, with the bytes from `before_offset`
/// up to the match as its context before and the bytes from the match up to
/// `end_offset` as its context after.
pub open spec fn check_at(
    window: Seq<u8>,
    target: Seq<u8>,
    before_offset: int,
    target_offset: int,
    after_offset: int,
    end_offset: int,
    global_target_offset: int,
) -> Option<Occurrence> {
    if window.subrange(target_offset, after_offset) == target {
        Some(
            Occurrence {
                offset: global_target_offset + target_offset,
                before: window.subrange(before_offset, target_offset),
                after: window.subrange(after_offset, end_offset),
            },
        )
    } else {
        None
    }
}

/// A match check at a position of the window, with the context offsets that
/// belong to that position, reports what is found there.
pub proof fn lemma_check_reports_found(
    window: Seq<u8>,
    target: Seq<u8>,
    before_context: nat,
    after_context: nat,
    position: int,
    global_target_offset: int,
)
    requires
        0 <= position,
        position + target.len() <= window.len(),
    ensures
        check_at(
            window,
            target,
            context_start(before_context, position),
            position,
            position + target.len(),
            context_end(window.len(), target.len(), after_context, position),
            global_target_offset,
        ) == match found_at(window, target, before_context, after_context, position) {
            Some(occurrence) => Some(shifted(occurrence, global_target_offset)),
            None => None,
        },
{
}

/// Whether two byte strings are equal.
pub fn bytes_equal(left: &[u8], right: &[u8]) -> (equal: bool)
    ensures
        equal == (left@ == right@),
{
    if left.len() != right.len() {
        return false;
    }
    let mut index: usize = 0;
    while index < left.len()
        invariant
            index <= left@.len(),
            left@.len() == right@.len(),
            forall|i: int| 0 <= i < index ==> left@[i] == right@[i],
        decreases left@.len() - index,
    {
        if left[index] != right[index] {
            return false;
        }
        index += 1;
    }
    proof {
        assert(left@ =~= right@);
    }
    true
}

/// Compares the candidate slice of the window with the target and, if they
/// are equal, returns the match with its context.
pub fn match_check(
    buffer: &WindowBuffer,
    target: &[u8],
    before_offset: usize,
    target_offset: usize,
    after_offset: usize,
    end_offset: usize,
    global_target_offset: u64,
) -> (record: Option<MatchRecord>)
    requires
        before_offset <= target_offset <= after_offset <= end_offset <= buffer@.len(),
        global_target_offset + target_offset <= u64::MAX,
    ensures
        optional_view(record) == check_at(
            buffer@,
            target@,
            before_offset as int,
            target_offset as int,
            after_offset as int,
            end_offset as int,
            global_target_offset as int,
        ),
{
    if bytes_equal(buffer.slice(target_offset, after_offset), target) {
        let before = slice_to_vec(buffer.slice(before_offset, target_offset));
        let after = slice_to_vec(buffer.slice(after_offset, end_offset));
        Some(MatchRecord { offset: global_target_offset + target_offset as u64, before, after })
    } else {
        None
    }
}

} // verus!

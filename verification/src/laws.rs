//! What holds of every scan: the laws that relate what a scan reports to the
//! stream as a whole.
//!
//! They are stated of [`scan_result`], which is what [`scan`](crate::scan::scan)
//! returns. By the theorem in [`streaming`](crate::streaming) they hold as well
//! of what a [`ScanDriver`](crate::driver::ScanDriver) reports for a stream
//! whose first chunk filled the window or was the whole stream.

use crate::error::ScanError;
use crate::occurrence::{
    all_occurrences, lemma_found_is_reported, lemma_reported_in_order, lemma_reported_is_found,
    occurrence_at, occurs_at, views, MatchRecord, Occurrence,
};
use crate::scan::{outcome_view, scan_result};
use vstd::math::min;
use vstd::prelude::*;

verus! {

/// A scan of a stream in which the target does not occur, and which is at
/// least as long as the target, succeeds and reports nothing.
pub proof fn law_absent_target_reports_nothing(
    target: Seq<u8>,
    before_context: nat,
    after_context: nat,
    stream: Seq<u8>,
)
    requires
        target.len() <= stream.len(),
        forall|position: int| !occurs_at(stream, target, position),
    ensures
        scan_result(target, before_context, after_context, stream) == Ok::<
            Seq<Occurrence>,
            ScanError,
        >(Seq::empty()),
{
    if target.len() == 0 {
        assert(stream.subrange(0, 0) =~= target);
        assert(occurs_at(stream, target, 0));
    }
    let occurrences = all_occurrences(stream, target, before_context, after_context);
    if occurrences.len() > 0 {
        lemma_reported_is_found(
            stream,
            target,
            before_context,
            after_context,
            0,
            stream.len() - target.len() + 1,
            0,
        );
    }
    assert(occurrences =~= Seq::empty());
}

/// Every reported match carries as much context as was asked for and the
/// stream has: before it `before_context` bytes, or all bytes in front of it
/// if those are fewer; after it `after_context` bytes, or all bytes behind it
/// if those are fewer.
pub proof fn law_context_is_truncated_at_stream_boundaries(
    target: Seq<u8>,
    before_context: nat,
    after_context: nat,
    stream: Seq<u8>,
)
    ensures
        forall|index: int|
            0 <= index < all_occurrences(stream, target, before_context, after_context).len()
                ==> {
                let occurrence = #[trigger] all_occurrences(
                    stream,
                    target,
                    before_context,
                    after_context,
                )[index];
                &&& occurrence.before.len() == min(before_context as int, occurrence.offset)
                &&& occurrence.after.len() == min(
                    after_context as int,
                    stream.len() - occurrence.offset - target.len(),
                )
            },
{
    let occurrences = all_occurrences(stream, target, before_context, after_context);
    assert forall|index: int| 0 <= index < occurrences.len() implies {
        let occurrence = #[trigger] occurrences[index];
        &&& occurrence.before.len() == min(before_context as int, occurrence.offset)
        &&& occurrence.after.len() == min(
            after_context as int,
            stream.len() - occurrence.offset - target.len(),
        )
    } by {
        lemma_reported_is_found(
            stream,
            target,
            before_context,
            after_context,
            0,
            stream.len() - target.len() + 1,
            index,
        );
    }
}

/// The bytes of the stream that start at a reported offset are the target.
pub proof fn law_target_stands_at_reported_offsets(
    target: Seq<u8>,
    before_context: nat,
    after_context: nat,
    stream: Seq<u8>,
)
    ensures
        forall|index: int|
            0 <= index < all_occurrences(stream, target, before_context, after_context).len()
                ==> {
                let occurrence = #[trigger] all_occurrences(
                    stream,
                    target,
                    before_context,
                    after_context,
                )[index];
                &&& 0 <= occurrence.offset
                &&& occurrence.offset + target.len() <= stream.len()
                &&& stream.subrange(occurrence.offset, occurrence.offset + target.len())
                    == target
            },
{
    let occurrences = all_occurrences(stream, target, before_context, after_context);
    assert forall|index: int| 0 <= index < occurrences.len() implies {
        let occurrence = #[trigger] occurrences[index];
        &&& 0 <= occurrence.offset
        &&& occurrence.offset + target.len() <= stream.len()
        &&& stream.subrange(occurrence.offset, occurrence.offset + target.len()) == target
    } by {
        lemma_reported_is_found(
            stream,
            target,
            before_context,
            after_context,
            0,
            stream.len() - target.len() + 1,
            index,
        );
    }
}

/// Scanning the same stream with the same settings again gives the same
/// outcome: two outcomes that both satisfy what [`scan`](crate::scan::scan)
/// ensures stand for the same occurrences, or are the same error.
pub proof fn law_scan_is_repeatable(
    target: Seq<u8>,
    before_context: nat,
    after_context: nat,
    stream: Seq<u8>,
    first: Result<Vec<MatchRecord>, ScanError>,
    second: Result<Vec<MatchRecord>, ScanError>,
)
    requires
        outcome_view(first) == scan_result(target, before_context, after_context, stream),
        outcome_view(second) == scan_result(target, before_context, after_context, stream),
    ensures
        outcome_view(first) == outcome_view(second),
        first is Ok ==> second is Ok && first->Ok_0@.len() == second->Ok_0@.len() && forall|
            index: int,
        |
            0 <= index < first->Ok_0@.len() ==> {
                &&& (#[trigger] first->Ok_0@[index]).offset == second->Ok_0@[index].offset
                &&& first->Ok_0@[index].before@ == second->Ok_0@[index].before@
                &&& first->Ok_0@[index].after@ == second->Ok_0@[index].after@
            },
{
    if first is Ok {
        let one = first->Ok_0@;
        let other = second->Ok_0@;
        assert(views(one) == views(other));
        assert(views(one).len() == one.len());
        assert(views(other).len() == other.len());
        assert forall|index: int| 0 <= index < one.len() implies {
            &&& (#[trigger] one[index]).offset == other[index].offset
            &&& one[index].before@ == other[index].before@
            &&& one[index].after@ == other[index].after@
        } by {
            assert(views(one)[index] == one[index]@);
            assert(views(other)[index] == other[index]@);
        }
    }
}

/// A match at the very start of the stream has no context before it, and a
/// match that ends with the stream has no context after it.
pub proof fn law_no_context_beyond_stream_boundaries(
    target: Seq<u8>,
    before_context: nat,
    after_context: nat,
    stream: Seq<u8>,
)
    ensures
        forall|index: int|
            0 <= index < all_occurrences(stream, target, before_context, after_context).len()
                ==> {
                let occurrence = #[trigger] all_occurrences(
                    stream,
                    target,
                    before_context,
                    after_context,
                )[index];
                &&& occurrence.offset == 0 ==> occurrence.before.len() == 0
                &&& occurrence.offset + target.len() == stream.len() ==> occurrence.after.len()
                    == 0
            },
{
    law_context_is_truncated_at_stream_boundaries(target, before_context, after_context, stream);
}

/// A scan of a stream that is shorter than the target fails for want of
/// input, and so reports no match.
pub proof fn law_short_stream_is_insufficient(
    target: Seq<u8>,
    before_context: nat,
    after_context: nat,
    stream: Seq<u8>,
)
    requires
        stream.len() < target.len(),
    ensures
        scan_result(target, before_context, after_context, stream) == Err::<
            Seq<Occurrence>,
            ScanError,
        >(ScanError::InsufficientInput),
{
}

/// A scan that starts reports each position at which the target stands, once,
/// and nothing else; the reports stand in stream order.
pub proof fn law_every_occurrence_is_reported_once(
    target: Seq<u8>,
    before_context: nat,
    after_context: nat,
    stream: Seq<u8>,
)
    ensures
        forall|position: int| #[trigger]
            occurs_at(stream, target, position) ==> all_occurrences(
                stream,
                target,
                before_context,
                after_context,
            ).contains(
                occurrence_at(stream, target.len(), before_context, after_context, position),
            ),
        forall|earlier: int, later: int|
            0 <= earlier < later < all_occurrences(
                stream,
                target,
                before_context,
                after_context,
            ).len() ==> (#[trigger] all_occurrences(
                stream,
                target,
                before_context,
                after_context,
            )[earlier]).offset < (#[trigger] all_occurrences(
                stream,
                target,
                before_context,
                after_context,
            )[later]).offset,
{
    let occurrences = all_occurrences(stream, target, before_context, after_context);
    assert forall|position: int| #[trigger]
        occurs_at(stream, target, position) implies occurrences.contains(
        occurrence_at(stream, target.len(), before_context, after_context, position),
    ) by {
        lemma_found_is_reported(
            stream,
            target,
            before_context,
            after_context,
            0,
            stream.len() - target.len() + 1,
            position,
        );
    }
    assert forall|earlier: int, later: int| 0 <= earlier < later < occurrences.len() implies (
    #[trigger] occurrences[earlier]).offset < (#[trigger] occurrences[later]).offset by {
        lemma_reported_in_order(
            stream,
            target,
            before_context,
            after_context,
            0,
            stream.len() - target.len() + 1,
            earlier,
            later,
        );
    }
}

} // verus!

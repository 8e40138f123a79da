//! The driver against the stream as a whole: what the three phases report
//! together is every occurrence of the target.

use crate::driver::{
    ramp_up_limit, ramp_up_occurrences, started, streamed_occurrences, DriverState,
};
use crate::matching::lemma_check_reports_found;
use crate::occurrence::{
    all_occurrences, all_shifted, found_at, lemma_occurrences_of_prefix,
    lemma_occurrences_of_suffix, lemma_occurrences_split, lemma_shift_appended,
    occurrences_between, reported, Occurrence,
};
use vstd::prelude::*;

verus! {

/// While the stream arrives behind a first chunk that filled the window, the
/// window holds the last bytes of the stream, and ramp-up and the steady state
/// together have reported every occurrence whose full context after it has
/// arrived.
pub proof fn lemma_steady_on_full_window(
    target: Seq<u8>,
    before_context: nat,
    after_context: nat,
    initial: Seq<u8>,
    rest: Seq<u8>,
)
    requires
        1 <= target.len(),
        initial.len() == before_context + target.len() + after_context,
    ensures
        started(target, before_context, after_context, initial).fed(rest) == (DriverState {
            window: (initial + rest).skip(rest.len() as int),
            global_target_offset: rest.len(),
            ..started(target, before_context, after_context, initial)
        }),
        ramp_up_occurrences(target, before_context, after_context, initial) + started(
            target,
            before_context,
            after_context,
            initial,
        ).steady_occurrences(rest) == occurrences_between(
            initial + rest,
            target,
            before_context,
            after_context,
            0,
            rest.len() as int + before_context + 1,
        ),
    decreases rest.len(),
{
    let first = started(target, before_context, after_context, initial);
    let stream = initial + rest;
    let ramp_up = ramp_up_occurrences(target, before_context, after_context, initial);
    if rest.len() == 0 {
        assert(stream =~= initial);
        assert(stream.skip(0) =~= initial);
        assert(ramp_up + Seq::<Occurrence>::empty() =~= ramp_up);
    } else {
        let earlier = rest.drop_last();
        let shorter = initial + earlier;
        let skipped = rest.len() as int;
        let position = skipped + before_context;
        lemma_steady_on_full_window(target, before_context, after_context, initial, earlier);
        let previous = first.fed(earlier);
        let state = first.fed(rest);
        assert(state.window =~= stream.skip(skipped)) by {
            assert(previous.window == shorter.skip(earlier.len() as int));
            assert(previous.window.len() == first.capacity);
            assert(state.window == previous.window.drop_first().push(rest.last()));
        }
        assert(shorter =~= stream.take(stream.len() - 1));

        // The match check on the new window is what the stream holds at `position`.
        lemma_check_reports_found(
            state.window,
            target,
            before_context,
            after_context,
            before_context as int,
            skipped,
        );
        lemma_occurrences_of_suffix(
            stream,
            target,
            before_context,
            after_context,
            skipped,
            before_context as int,
            before_context as int + 1,
        );
        let here = found_at(
            state.window,
            target,
            before_context,
            after_context,
            before_context as int,
        );
        assert(occurrences_between(
            state.window,
            target,
            before_context,
            after_context,
            before_context as int,
            before_context as int + 1,
        ) =~= reported(here)) by {
            assert(occurrences_between(
                state.window,
                target,
                before_context,
                after_context,
                before_context as int,
                before_context as int,
            ) =~= Seq::<Occurrence>::empty());
        }
        lemma_shift_appended(Seq::<Occurrence>::empty(), here, skipped);
        assert(all_shifted(Seq::<Occurrence>::empty(), skipped) =~= Seq::<Occurrence>::empty());
        assert(Seq::<Occurrence>::empty() + reported(here) =~= reported(here));
        assert(reported(state.check()) =~= occurrences_between(
            stream,
            target,
            before_context,
            after_context,
            position,
            position + 1,
        ));

        // What was reported before is what the stream holds in front of `position`.
        lemma_occurrences_of_prefix(
            stream,
            target,
            before_context,
            after_context,
            stream.len() - 1,
            0,
            position,
        );
        lemma_occurrences_split(
            stream,
            target,
            before_context,
            after_context,
            0,
            position,
            position + 1,
        );
        assert((ramp_up + first.steady_occurrences(earlier)) + reported(state.check()) =~= ramp_up
            + first.steady_occurrences(rest));
    }
}

/// The driver reports every occurrence of the target in the stream, each once
/// and with its context, in stream order, whenever the first chunk filled the
/// window or was the whole stream.
pub proof fn theorem_streamed_scan_reports_all_occurrences(
    target: Seq<u8>,
    before_context: nat,
    after_context: nat,
    initial: Seq<u8>,
    rest: Seq<u8>,
)
    requires
        1 <= target.len() <= initial.len(),
        initial.len() <= before_context + target.len() + after_context,
        initial.len() == before_context + target.len() + after_context || rest.len() == 0,
    ensures
        streamed_occurrences(target, before_context, after_context, initial, rest)
            == all_occurrences(initial + rest, target, before_context, after_context),
{
    let first = started(target, before_context, after_context, initial);
    let stream = initial + rest;
    let limit = ramp_up_limit(before_context, target.len(), after_context, initial.len());
    let skipped = rest.len() as int;
    let state = first.fed(rest);
    let ramp_up = ramp_up_occurrences(target, before_context, after_context, initial);
    assert(first.end_offset == initial.len());
    if rest.len() == 0 {
        assert(stream =~= initial);
        assert(ramp_up + Seq::<Occurrence>::empty() =~= ramp_up);
    } else {
        lemma_steady_on_full_window(target, before_context, after_context, initial, rest);
    }
    assert(state.window =~= stream.skip(skipped));
    assert(state.window.take(state.end_offset as int) =~= stream.skip(skipped));
    lemma_occurrences_of_suffix(
        stream,
        target,
        before_context,
        after_context,
        skipped,
        limit as int + 1,
        initial.len() - target.len() + 1,
    );
    lemma_occurrences_split(
        stream,
        target,
        before_context,
        after_context,
        0,
        skipped + limit + 1,
        stream.len() - target.len() + 1,
    );
}

} // verus!

//! A scan of a stream that is wholly in memory.

use crate::config::Config;
use crate::driver::{ramp_up_occurrences, start_failure, started, ScanDriver};
use crate::error::ScanError;
use crate::occurrence::{
    all_occurrences, push_found, reported, views, MatchRecord, Occurrence,
};
use crate::streaming::theorem_streamed_scan_reports_all_occurrences;
use vstd::prelude::*;
use vstd::slice::slice_subrange;

verus! {

/// What a scan of `stream` for `target` comes to: every occurrence with its
/// context, in stream order; or the reason why the scan cannot start.
pub open spec fn scan_result(
    target: Seq<u8>,
    before_context: nat,
    after_context: nat,
    stream: Seq<u8>,
) -> Result<Seq<Occurrence>, ScanError> {
    match start_failure(target.len(), stream.len()) {
        Some(error) => Err(error),
        None => Ok(all_occurrences(stream, target, before_context, after_context)),
    }
}

/// The outcome of a scan with each record replaced by the occurrence it
/// stands for.
pub open spec fn outcome_view(outcome: Result<Vec<MatchRecord>, ScanError>) -> Result<
    Seq<Occurrence>,
    ScanError,
> {
    match outcome {
        Ok(found) => Ok(views(found@)),
        Err(error) => Err(error),
    }
}

/// Scans `stream` for the target of `config` and returns every match with its
/// context, in stream order.
///
/// The stream is handed to a [`ScanDriver`] as a first chunk that fills the
/// window, or is the whole stream if that is shorter, followed by the
/// remaining bytes one by one.
pub fn scan(config: &Config, stream: &[u8]) -> (outcome: Result<Vec<MatchRecord>, ScanError>)
    requires
        config.window_size() <= usize::MAX,
    ensures
        outcome_view(outcome) == scan_result(
            config.raw_target@,
            config.before_context as nat,
            config.after_context as nat,
            stream@,
        ),
{
    let capacity = config.before_context + config.target().len() + config.after_context;
    let read_count = if stream.len() < capacity {
        stream.len()
    } else {
        capacity
    };
    let initial = slice_subrange(stream, 0, read_count);
    let (mut driver, mut found) = match ScanDriver::start(config, initial) {
        Ok(started) => started,
        Err(error) => {
            return Err(error);
        },
    };
    let ghost target = config.raw_target@;
    let ghost before_context = config.before_context as nat;
    let ghost after_context = config.after_context as nat;
    let ghost first = started(target, before_context, after_context, initial@);
    let ghost ramp_up = ramp_up_occurrences(target, before_context, after_context, initial@);
    let mut index: usize = read_count;
    proof {
        assert(stream@.subrange(read_count as int, index as int) =~= Seq::<u8>::empty());
        assert(ramp_up + Seq::<Occurrence>::empty() =~= ramp_up);
    }
    while index < stream.len()
        invariant
            read_count <= index <= stream@.len(),
            read_count == capacity || read_count == stream@.len(),
            capacity == before_context + target.len() + after_context,
            first == started(target, before_context, after_context, initial@),
            driver.wf(),
            driver@ == first.fed(stream@.subrange(read_count as int, index as int)),
            driver@.global_target_offset == index - read_count,
            driver@.capacity == capacity,
            views(found@) == ramp_up + first.steady_occurrences(
                stream@.subrange(read_count as int, index as int),
            ),
        decreases stream@.len() - index,
    {
        let ghost earlier = stream@.subrange(read_count as int, index as int);
        let ghost taken = stream@.subrange(read_count as int, index + 1);
        let record = driver.advance(stream[index]);
        proof {
            assert(taken.drop_last() =~= earlier);
            assert(taken.last() == stream@[index as int]);
            assert((ramp_up + first.steady_occurrences(earlier)) + reported(
                first.fed(taken).check(),
            ) =~= ramp_up + first.steady_occurrences(taken));
        }
        push_found(&mut found, record);
        index += 1;
    }
    let mut tail = driver.finish();
    let ghost rest = stream@.subrange(read_count as int, stream@.len() as int);
    proof {
        assert(initial@ + rest =~= stream@);
        theorem_streamed_scan_reports_all_occurrences(
            target,
            before_context,
            after_context,
            initial@,
            rest,
        );
        assert(views(found@ + tail@) =~= views(found@) + views(tail@));
    }
    found.append(&mut tail);
    Ok(found)
}

} // verus!

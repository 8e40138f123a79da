//! What a scan reports, stated over the whole stream.
//!
//! An occurrence of the target is a position of the stream at which the target
//! stands byte for byte. With each occurrence go the bytes before and after it,
//! as many as were asked for and the stream has.

use vstd::prelude::*;

verus! {

/// One reported match: the position of its first byte in the stream, and the
/// bytes that surround it.
pub struct Occurrence {
    pub offset: int,
    pub before: Seq<u8>,
    pub after: Seq<u8>,
}

/// One reported match, as the scan hands it out.
#[derive(Debug, PartialEq, Eq)]
pub struct MatchRecord {
    /// The position in the stream of the first byte of the match.
    pub offset: u64,
    /// The bytes of the stream that directly precede the match.
    pub before: Vec<u8>,
    /// The bytes of the stream that directly follow the match.
    pub after: Vec<u8>,
}

impl View for MatchRecord {
    type V = Occurrence;

    open spec fn view(&self) -> Occurrence {
        Occurrence { offset: self.offset as int, before: self.before@, after: self.after@ }
    }
}

/// The occurrences that a list of records stands for.
pub open spec fn views(records: Seq<MatchRecord>) -> Seq<Occurrence> {
    records.map_values(|record: MatchRecord| record@)
}

/// The occurrence that an optional record stands for.
pub open spec fn optional_view(record: Option<MatchRecord>) -> Option<Occurrence> {
    match record {
        Some(record) => Some(record@),
        None => None,
    }
}

/// Zero or one occurrence as a list.
pub open spec fn reported(occurrence: Option<Occurrence>) -> Seq<Occurrence> {
    match occurrence {
        Some(occurrence) => seq![occurrence],
        None => Seq::empty(),
    }
}

/// The same occurrence, seen from a stream that has `by` more bytes in front.
pub open spec fn shifted(occurrence: Occurrence, by: int) -> Occurrence {
    Occurrence { offset: occurrence.offset + by, ..occurrence }
}

/// Each occurrence of the list, shifted by `by`.
pub open spec fn all_shifted(occurrences: Seq<Occurrence>, by: int) -> Seq<Occurrence> {
    occurrences.map_values(|occurrence: Occurrence| shifted(occurrence, by))
}

/// Whether `target` stands in `stream` at `position`.
pub open spec fn occurs_at(stream: Seq<u8>, target: Seq<u8>, position: int) -> bool {
    &&& 0 <= position
    &&& position + target.len() <= stream.len()
    &&& stream.subrange(position, position + target.len()) == target
}

/// Where the context before a match at `position` starts.
pub open spec fn context_start(before_context: nat, position: int) -> int {
    if position >= before_context {
        position - before_context
    } else {
        0
    }
}

/// Where the context after a match at `position` ends.
pub open spec fn context_end(
    stream_len: nat,
    target_len: nat,
    after_context: nat,
    position: int,
) -> int {
    if position + target_len + after_context <= stream_len {
        position + target_len + after_context
    } else {
        stream_len as int
    }
}

/// The match at `position` with its context: up to `before_context` bytes
/// before it and up to `after_context` bytes after it, fewer only where the
/// stream begins or ends.
pub open spec fn occurrence_at(
    stream: Seq<u8>,
    target_len: nat,
    before_context: nat,
    after_context: nat,
    position: int,
) -> Occurrence {
    Occurrence {
        offset: position,
        before: stream.subrange(context_start(before_context, position), position),
        after: stream.subrange(
            position + target_len,
            context_end(stream.len(), target_len, after_context, position),
        ),
    }
}

/// What is reported for `position`: the occurrence there, if the target stands
/// there.
pub open spec fn found_at(
    stream: Seq<u8>,
    target: Seq<u8>,
    before_context: nat,
    after_context: nat,
    position: int,
) -> Option<Occurrence> {
    if occurs_at(stream, target, position) {
        Some(occurrence_at(stream, target.len(), before_context, after_context, position))
    } else {
        None
    }
}

/// The occurrences that start at the positions `from..to`, in stream order.
pub open spec fn occurrences_between(
    stream: Seq<u8>,
    target: Seq<u8>,
    before_context: nat,
    after_context: nat,
    from: int,
    to: int,
) -> Seq<Occurrence>
    decreases to - from,
{
    if to <= from {
        Seq::empty()
    } else {
        occurrences_between(stream, target, before_context, after_context, from, to - 1)
            + reported(found_at(stream, target, before_context, after_context, to - 1))
    }
}

/// Every occurrence of `target` in `stream`, in stream order.
pub open spec fn all_occurrences(
    stream: Seq<u8>,
    target: Seq<u8>,
    before_context: nat,
    after_context: nat,
) -> Seq<Occurrence> {
    occurrences_between(
        stream,
        target,
        before_context,
        after_context,
        0,
        stream.len() - target.len() + 1,
    )
}

/// Shifting distributes over appending what one position reports.
pub proof fn lemma_shift_appended(
    occurrences: Seq<Occurrence>,
    last: Option<Occurrence>,
    by: int,
)
    ensures
        all_shifted(occurrences + reported(last), by) == all_shifted(occurrences, by) + reported(
            match last {
                Some(occurrence) => Some(shifted(occurrence, by)),
                None => None,
            },
        ),
{
    assert(all_shifted(occurrences + reported(last), by) =~= all_shifted(occurrences, by)
        + reported(
        match last {
            Some(occurrence) => Some(shifted(occurrence, by)),
            None => None,
        },
    ));
}

/// The occurrences in a range of positions are those in its first part
/// followed by those in its second part.
pub proof fn lemma_occurrences_split(
    stream: Seq<u8>,
    target: Seq<u8>,
    before_context: nat,
    after_context: nat,
    from: int,
    middle: int,
    to: int,
)
    requires
        from <= middle <= to,
    ensures
        occurrences_between(stream, target, before_context, after_context, from, to)
            == occurrences_between(stream, target, before_context, after_context, from, middle)
            + occurrences_between(stream, target, before_context, after_context, middle, to),
    decreases to - middle,
{
    let first = occurrences_between(stream, target, before_context, after_context, from, middle);
    if middle == to {
        assert(first + Seq::<Occurrence>::empty() =~= first);
    } else {
        lemma_occurrences_split(
            stream,
            target,
            before_context,
            after_context,
            from,
            middle,
            to - 1,
        );
        let second = occurrences_between(
            stream,
            target,
            before_context,
            after_context,
            middle,
            to - 1,
        );
        let last = reported(found_at(stream, target, before_context, after_context, to - 1));
        assert((first + second) + last =~= first + (second + last));
    }
}

/// A prefix of the stream reports the same occurrences as the whole stream
/// at every position whose match and full context after it lie inside the
/// prefix.
pub proof fn lemma_occurrences_of_prefix(
    stream: Seq<u8>,
    target: Seq<u8>,
    before_context: nat,
    after_context: nat,
    length: int,
    from: int,
    to: int,
)
    requires
        0 <= from,
        0 <= length <= stream.len(),
        to - 1 + target.len() + after_context <= length,
    ensures
        occurrences_between(stream.take(length), target, before_context, after_context, from, to)
            == occurrences_between(stream, target, before_context, after_context, from, to),
    decreases to - from,
{
    if to > from {
        lemma_occurrences_of_prefix(
            stream,
            target,
            before_context,
            after_context,
            length,
            from,
            to - 1,
        );
        let position = to - 1;
        let prefix = stream.take(length);
        assert(prefix.subrange(position, position + target.len()) =~= stream.subrange(
            position,
            position + target.len(),
        ));
        let short = occurrence_at(prefix, target.len(), before_context, after_context, position);
        let whole = occurrence_at(stream, target.len(), before_context, after_context, position);
        assert(short.before =~= whole.before);
        assert(short.after =~= whole.after);
    }
}

/// What is found in the stream without its first `skipped` bytes is found in
/// the whole stream `skipped` positions further on, provided the context
/// before the match does not reach into the skipped bytes.
pub proof fn lemma_occurrences_of_suffix(
    stream: Seq<u8>,
    target: Seq<u8>,
    before_context: nat,
    after_context: nat,
    skipped: int,
    from: int,
    to: int,
)
    requires
        0 <= skipped <= stream.len(),
        0 <= from,
        skipped == 0 || before_context <= from,
    ensures
        all_shifted(
            occurrences_between(
                stream.skip(skipped),
                target,
                before_context,
                after_context,
                from,
                to,
            ),
            skipped,
        ) == occurrences_between(
            stream,
            target,
            before_context,
            after_context,
            from + skipped,
            to + skipped,
        ),
    decreases to - from,
{
    let suffix = stream.skip(skipped);
    if to <= from {
        assert(all_shifted(Seq::<Occurrence>::empty(), skipped) =~= Seq::<Occurrence>::empty());
    } else {
        lemma_occurrences_of_suffix(
            stream,
            target,
            before_context,
            after_context,
            skipped,
            from,
            to - 1,
        );
        let position = to - 1;
        let earlier = occurrences_between(
            suffix,
            target,
            before_context,
            after_context,
            from,
            position,
        );
        let here = found_at(suffix, target, before_context, after_context, position);
        lemma_shift_appended(earlier, here, skipped);
        if position + target.len() <= suffix.len() {
            assert(suffix.subrange(position, position + target.len()) =~= stream.subrange(
                position + skipped,
                position + skipped + target.len(),
            ));
        }
        if occurs_at(suffix, target, position) {
            let local = occurrence_at(
                suffix,
                target.len(),
                before_context,
                after_context,
                position,
            );
            let global = occurrence_at(
                stream,
                target.len(),
                before_context,
                after_context,
                position + skipped,
            );
            assert(local.before =~= global.before);
            assert(local.after =~= global.after);
            assert(shifted(local, skipped) == global);
        }
    }
}

/// Each reported occurrence starts at a position of the range where the
/// target stands, and is the occurrence that belongs to that position.
pub proof fn lemma_reported_is_found(
    stream: Seq<u8>,
    target: Seq<u8>,
    before_context: nat,
    after_context: nat,
    from: int,
    to: int,
    index: int,
)
    requires
        0 <= index < occurrences_between(
            stream,
            target,
            before_context,
            after_context,
            from,
            to,
        ).len(),
    ensures
        ({
            let occurrence = occurrences_between(
                stream,
                target,
                before_context,
                after_context,
                from,
                to,
            )[index];
            &&& from <= occurrence.offset < to
            &&& occurs_at(stream, target, occurrence.offset)
            &&& occurrence == occurrence_at(
                stream,
                target.len(),
                before_context,
                after_context,
                occurrence.offset,
            )
        }),
    decreases to - from,
{
    if to > from {
        let earlier = occurrences_between(
            stream,
            target,
            before_context,
            after_context,
            from,
            to - 1,
        );
        if index < earlier.len() {
            lemma_reported_is_found(
                stream,
                target,
                before_context,
                after_context,
                from,
                to - 1,
                index,
            );
        }
    }
}

/// The reported occurrences stand in stream order: a later one starts at a
/// later position.
pub proof fn lemma_reported_in_order(
    stream: Seq<u8>,
    target: Seq<u8>,
    before_context: nat,
    after_context: nat,
    from: int,
    to: int,
    earlier: int,
    later: int,
)
    requires
        0 <= earlier < later < occurrences_between(
            stream,
            target,
            before_context,
            after_context,
            from,
            to,
        ).len(),
    ensures
        ({
            let occurrences = occurrences_between(
                stream,
                target,
                before_context,
                after_context,
                from,
                to,
            );
            occurrences[earlier].offset < occurrences[later].offset
        }),
    decreases to - from,
{
    if to > from {
        let front = occurrences_between(
            stream,
            target,
            before_context,
            after_context,
            from,
            to - 1,
        );
        if later < front.len() {
            lemma_reported_in_order(
                stream,
                target,
                before_context,
                after_context,
                from,
                to - 1,
                earlier,
                later,
            );
        } else {
            lemma_reported_is_found(
                stream,
                target,
                before_context,
                after_context,
                from,
                to - 1,
                earlier,
            );
        }
    }
}

/// Where the target stands at a position of the range, the occurrence that
/// belongs to that position is among those reported.
pub proof fn lemma_found_is_reported(
    stream: Seq<u8>,
    target: Seq<u8>,
    before_context: nat,
    after_context: nat,
    from: int,
    to: int,
    position: int,
)
    requires
        from <= position < to,
        occurs_at(stream, target, position),
    ensures
        occurrences_between(stream, target, before_context, after_context, from, to).contains(
            occurrence_at(stream, target.len(), before_context, after_context, position),
        ),
    decreases to - from,
{
    let occurrences = occurrences_between(
        stream,
        target,
        before_context,
        after_context,
        from,
        to,
    );
    let front = occurrences_between(stream, target, before_context, after_context, from, to - 1);
    if position == to - 1 {
        assert(occurrences[front.len() as int] == occurrence_at(
            stream,
            target.len(),
            before_context,
            after_context,
            position,
        ));
    } else {
        lemma_found_is_reported(
            stream,
            target,
            before_context,
            after_context,
            from,
            to - 1,
            position,
        );
        let index = choose|index: int|
            0 <= index < front.len() && front[index] == occurrence_at(
                stream,
                target.len(),
                before_context,
                after_context,
                position,
            );
        assert(occurrences[index] == front[index]);
    }
}

/// Appends the record to the list, if there is one.
pub fn push_found(found: &mut Vec<MatchRecord>, record: Option<MatchRecord>)
    ensures
        views(final(found)@) == views(old(found)@) + reported(optional_view(record)),
{
    match record {
        Some(record) => {
            found.push(record);
            assert(views(found@) =~= views(old(found)@) + seq![record@]);
        },
        None => {
            assert(views(found@) =~= views(old(found)@) + Seq::<Occurrence>::empty());
        },
    }
}

} // verus!

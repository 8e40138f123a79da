//! The scan driver: the offsets into the window, and the three phases that
//! move them.
//!
//! A scan starts with the first chunk of the stream. While the chunk lasts,
//! the candidate position walks forward through it and the context before it
//! grows (ramp-up). From then on the offsets stand still and each new byte
//! slides the window under them (steady state). When the stream has ended, the
//! candidate position walks on to the end of the window and the context after
//! it shrinks (ramp-down).
//!
//! The steady state counts on a full window. Where the first chunk filled the
//! window, or was the whole stream, the three phases together report every
//! occurrence of the target ([`crate::streaming`]). A first chunk that is
//! shorter than the window while the stream goes on leaves the window growing
//! under offsets that stand still: what the steady state reports in that case
//! is what [`DriverState::check`] says, and no more.

use crate::config::Config;
use crate::error::{ConfigurationFault, ScanError};
use crate::matching::{check_at, lemma_check_reports_found, match_check};
use crate::occurrence::{
    all_shifted, context_end, context_start, found_at, lemma_shift_appended, occurrences_between,
    optional_view, push_found, reported, views, MatchRecord, Occurrence,
};
use crate::window::{slid, WindowBuffer};
use vstd::prelude::*;
use vstd::slice::slice_to_vec;

verus! {

/// The state of a scan between two bytes of the stream.
pub struct DriverState {
    /// The bytes in the window, oldest first.
    pub window: Seq<u8>,
    /// The capacity of the window.
    pub capacity: nat,
    /// The bytes searched for.
    pub target: Seq<u8>,
    /// The configured size of the context before a match.
    pub before_context: nat,
    /// The configured size of the context after a match.
    pub after_context: nat,
    /// Where in the window the context before the candidate starts.
    pub before_offset: nat,
    /// Where in the window the candidate starts.
    pub target_offset: nat,
    /// Where in the window the candidate ends.
    pub after_offset: nat,
    /// Where in the window the context after the candidate ends.
    pub end_offset: nat,
    /// How many bytes have slid into the window since the first chunk: once
    /// the window is full, the stream position of its first byte.
    pub global_target_offset: nat,
}

impl DriverState {
    /// The offsets are ordered and lie in the window, and the candidate is as
    /// long as the target.
    pub open spec fn offsets_in_range(self) -> bool {
        &&& self.before_offset <= self.target_offset
        &&& self.after_offset == self.target_offset + self.target.len()
        &&& self.after_offset <= self.end_offset <= self.window.len()
    }

    /// What holds of the state whenever the driver waits for the next byte.
    pub open spec fn wf(self) -> bool {
        &&& 1 <= self.target.len()
        &&& self.capacity == self.before_context + self.target.len() + self.after_context
        &&& self.window.len() <= self.capacity
        &&& self.offsets_in_range()
        &&& self.before_offset == 0
        &&& self.target_offset <= self.before_context
        &&& self.end_offset <= self.after_offset + self.after_context
        &&& self.global_target_offset + self.capacity <= u64::MAX
    }

    /// The outcome of the match check at the current offsets.
    pub open spec fn check(self) -> Option<Occurrence> {
        check_at(
            self.window,
            self.target,
            self.before_offset as int,
            self.target_offset as int,
            self.after_offset as int,
            self.end_offset as int,
            self.global_target_offset as int,
        )
    }

    /// The state after one more byte of the stream: the window has slid, the
    /// offsets have not moved.
    pub open spec fn advanced(self, next_byte: u8) -> DriverState {
        DriverState {
            window: slid(self.window, self.capacity, next_byte),
            global_target_offset: self.global_target_offset + 1,
            ..self
        }
    }

    /// The state after the bytes `bytes` of the stream have been taken in, one
    /// after the other.
    pub open spec fn fed(self, bytes: Seq<u8>) -> DriverState
        decreases bytes.len(),
    {
        if bytes.len() == 0 {
            self
        } else {
            self.fed(bytes.drop_last()).advanced(bytes.last())
        }
    }

    /// What the steady state reports while `bytes` are taken in: after each
    /// byte, the outcome of the match check on the window as it then is.
    pub open spec fn steady_occurrences(self, bytes: Seq<u8>) -> Seq<Occurrence>
        decreases bytes.len(),
    {
        if bytes.len() == 0 {
            Seq::empty()
        } else {
            self.steady_occurrences(bytes.drop_last()) + reported(self.fed(bytes).check())
        }
    }

    /// What ramp-down reports: the occurrences at the positions behind the
    /// current candidate, as far as they end at or before `end_offset`. The
    /// context after each of them ends at `end_offset`.
    pub open spec fn ramp_down_occurrences(self) -> Seq<Occurrence> {
        all_shifted(
            occurrences_between(
                self.window.take(self.end_offset as int),
                self.target,
                self.before_context,
                self.after_context,
                self.target_offset as int + 1,
                self.end_offset - self.target.len() + 1,
            ),
            self.global_target_offset as int,
        )
    }
}

/// How far ramp-up moves the candidate: until the context before it is full,
/// or until the context after it reaches the end of the first chunk.
pub open spec fn ramp_up_limit(
    before_context: nat,
    target_len: nat,
    after_context: nat,
    read_count: nat,
) -> nat {
    let room = if target_len + after_context <= read_count {
        (read_count - target_len - after_context) as nat
    } else {
        0
    };
    if before_context <= room {
        before_context
    } else {
        room
    }
}

/// The state in which ramp-up leaves a scan that started with `chunk`.
pub open spec fn started(
    target: Seq<u8>,
    before_context: nat,
    after_context: nat,
    chunk: Seq<u8>,
) -> DriverState {
    let limit = ramp_up_limit(before_context, target.len(), after_context, chunk.len());
    DriverState {
        window: chunk,
        capacity: before_context + target.len() + after_context,
        target,
        before_context,
        after_context,
        before_offset: 0,
        target_offset: limit,
        after_offset: limit + target.len(),
        end_offset: context_end(chunk.len(), target.len(), after_context, limit as int) as nat,
        global_target_offset: 0,
    }
}

/// What ramp-up reports: every occurrence in the first chunk up to the
/// position where ramp-up stops.
pub open spec fn ramp_up_occurrences(
    target: Seq<u8>,
    before_context: nat,
    after_context: nat,
    chunk: Seq<u8>,
) -> Seq<Occurrence> {
    occurrences_between(
        chunk,
        target,
        before_context,
        after_context,
        0,
        ramp_up_limit(before_context, target.len(), after_context, chunk.len()) as int + 1,
    )
}

/// Everything a scan reports for a stream that arrives as a first chunk
/// `initial` followed by the bytes `rest`: what ramp-up finds in the chunk,
/// what the steady state finds while the rest arrives, and what ramp-down
/// finds once the stream has ended.
pub open spec fn streamed_occurrences(
    target: Seq<u8>,
    before_context: nat,
    after_context: nat,
    initial: Seq<u8>,
    rest: Seq<u8>,
) -> Seq<Occurrence> {
    let state = started(target, before_context, after_context, initial);
    ramp_up_occurrences(target, before_context, after_context, initial)
        + state.steady_occurrences(rest) + state.fed(rest).ramp_down_occurrences()
}

/// Why a scan cannot start, if it cannot: the target is empty, or the first
/// chunk is shorter than the target.
pub open spec fn start_failure(target_len: nat, read_count: nat) -> Option<ScanError> {
    if target_len == 0 {
        Some(ScanError::ConfigurationError(ConfigurationFault::EmptyTarget))
    } else if read_count < target_len {
        Some(ScanError::InsufficientInput)
    } else {
        None
    }
}

/// A scan in progress: the window over the stream and the offsets into it.
pub struct ScanDriver {
    buffer: WindowBuffer,
    target: Vec<u8>,
    before_context: usize,
    after_context: usize,
    before_offset: usize,
    target_offset: usize,
    after_offset: usize,
    end_offset: usize,
    global_target_offset: u64,
}

impl View for ScanDriver {
    type V = DriverState;

    closed spec fn view(&self) -> DriverState {
        DriverState {
            window: self.buffer@,
            capacity: self.buffer.spec_capacity(),
            target: self.target@,
            before_context: self.before_context as nat,
            after_context: self.after_context as nat,
            before_offset: self.before_offset as nat,
            target_offset: self.target_offset as nat,
            after_offset: self.after_offset as nat,
            end_offset: self.end_offset as nat,
            global_target_offset: self.global_target_offset as nat,
        }
    }
}

impl ScanDriver {
    /// The driver waits for the next byte, and its state is as it should be.
    pub closed spec fn wf(&self) -> bool {
        &&& self.buffer.wf()
        &&& self@.wf()
    }

    /// Whether the stream position still fits after one more byte.
    pub open spec fn has_room(&self) -> bool {
        self@.global_target_offset + self@.capacity < u64::MAX
    }

    /// Starts a scan for the target of `config` on a stream that begins with
    /// `initial`, the first chunk read from it: sets up the window and runs
    /// ramp-up. Returns the driver, ready for the next byte, and what ramp-up
    /// found.
    pub fn start(config: &Config, initial: &[u8]) -> (outcome: Result<
        (ScanDriver, Vec<MatchRecord>),
        ScanError,
    >)
        requires
            config.window_size() <= usize::MAX,
            initial@.len() <= config.window_size(),
        ensures
            match outcome {
                Ok((driver, found)) => {
                    &&& start_failure(config.raw_target@.len(), initial@.len()).is_none()
                    &&& driver.wf()
                    &&& driver@ == started(
                        config.raw_target@,
                        config.before_context as nat,
                        config.after_context as nat,
                        initial@,
                    )
                    &&& views(found@) == ramp_up_occurrences(
                        config.raw_target@,
                        config.before_context as nat,
                        config.after_context as nat,
                        initial@,
                    )
                },
                Err(error) => start_failure(config.raw_target@.len(), initial@.len()) == Some(
                    error,
                ),
            },
    {
        let target = slice_to_vec(config.target());
        let target_len = target.len();
        if target_len == 0 {
            return Err(ScanError::ConfigurationError(ConfigurationFault::EmptyTarget));
        }
        let before_context = config.before_context;
        let after_context = config.after_context;
        let buffer = match WindowBuffer::initialize(
            before_context,
            target_len,
            after_context,
            initial,
        ) {
            Ok(buffer) => buffer,
            Err(error) => {
                return Err(error);
            },
        };
        let read_count = initial.len();
        let ghost limit = ramp_up_limit(
            before_context as nat,
            target_len as nat,
            after_context as nat,
            read_count as nat,
        );

        let mut target_offset: usize = 0;
        let mut after_offset: usize = target_len;
        let mut end_offset: usize = if after_offset + after_context <= read_count {
            after_offset + after_context
        } else {
            read_count
        };
        let mut found: Vec<MatchRecord> = Vec::new();
        let first = match_check(&buffer, target.as_slice(), 0, 0, after_offset, end_offset, 0);
        proof {
            lemma_check_reports_found(
                initial@,
                target@,
                before_context as nat,
                after_context as nat,
                0,
                0,
            );
        }
        push_found(&mut found, first);
        proof {
            assert(occurrences_between(
                initial@,
                target@,
                before_context as nat,
                after_context as nat,
                0,
                0,
            ) =~= views(Seq::<MatchRecord>::empty()));
        }
        while target_offset < before_context && end_offset < read_count
            invariant
                buffer@ == initial@,
                target@ == config.raw_target@,
                target_len == target@.len(),
                read_count == initial@.len(),
                target_len <= read_count,
                before_context + target_len + after_context <= usize::MAX,
                limit == ramp_up_limit(
                    before_context as nat,
                    target_len as nat,
                    after_context as nat,
                    read_count as nat,
                ),
                target_offset <= limit,
                after_offset == target_offset + target_len,
                end_offset == context_end(
                    read_count as nat,
                    target_len as nat,
                    after_context as nat,
                    target_offset as int,
                ),
                after_offset <= end_offset <= read_count,
                views(found@) == occurrences_between(
                    initial@,
                    target@,
                    before_context as nat,
                    after_context as nat,
                    0,
                    target_offset + 1,
                ),
            decreases read_count - end_offset,
        {
            target_offset += 1;
            after_offset += 1;
            end_offset += 1;
            let next = match_check(
                &buffer,
                target.as_slice(),
                0,
                target_offset,
                after_offset,
                end_offset,
                0,
            );
            proof {
                lemma_check_reports_found(
                    initial@,
                    target@,
                    before_context as nat,
                    after_context as nat,
                    target_offset as int,
                    0,
                );
            }
            push_found(&mut found, next);
        }
        let driver = ScanDriver {
            buffer,
            target,
            before_context,
            after_context,
            before_offset: 0,
            target_offset,
            after_offset,
            end_offset,
            global_target_offset: 0,
        };
        Ok((driver, found))
    }

    /// Whether the driver can take one more byte without the stream position
    /// leaving the range of a 64-bit counter.
    pub fn can_advance(&self) -> (room: bool)
        requires
            self.wf(),
        ensures
            room == self.has_room(),
    {
        self.global_target_offset < u64::MAX - self.buffer.capacity() as u64
    }

    /// Takes the next byte of the stream: slides it into the window, moves the
    /// stream position on by one, and runs the match check at the offsets,
    /// which stay where they are.
    pub fn advance(&mut self, next_byte: u8) -> (record: Option<MatchRecord>)
        requires
            old(self).wf(),
            old(self).has_room(),
        ensures
            final(self).wf(),
            final(self)@ == old(self)@.advanced(next_byte),
            optional_view(record) == final(self)@.check(),
    {
        self.buffer.slide(next_byte);
        self.global_target_offset += 1;
        match_check(
            &self.buffer,
            self.target.as_slice(),
            self.before_offset,
            self.target_offset,
            self.after_offset,
            self.end_offset,
            self.global_target_offset,
        )
    }

    /// Ends the scan when the stream has ended: runs ramp-down and returns
    /// what it found.
    pub fn finish(self) -> (found: Vec<MatchRecord>)
        requires
            self.wf(),
        ensures
            views(found@) == self@.ramp_down_occurrences(),
    {
        let before_context = self.before_context;
        let end_offset = self.end_offset;
        let ghost rest = self.buffer@.take(end_offset as int);
        let ghost start = self.target_offset;
        let mut before_offset: usize = if before_context > self.target_offset {
            0
        } else {
            self.target_offset - before_context
        };
        let mut target_offset: usize = self.target_offset;
        let mut after_offset: usize = self.after_offset;
        let mut found: Vec<MatchRecord> = Vec::new();
        while after_offset < end_offset
            invariant
                self.wf(),
                before_context == self@.before_context,
                end_offset == self@.end_offset,
                rest == self@.window.take(end_offset as int),
                start == self@.target_offset,
                start <= target_offset,
                after_offset == target_offset + self@.target.len(),
                after_offset <= end_offset,
                before_offset == context_start(self@.before_context, target_offset as int),
                views(found@) == all_shifted(
                    occurrences_between(
                        rest,
                        self@.target,
                        self@.before_context,
                        self@.after_context,
                        start + 1,
                        target_offset + 1,
                    ),
                    self@.global_target_offset as int,
                ),
            decreases end_offset - after_offset,
        {
            if target_offset >= before_context {
                before_offset += 1;
            }
            target_offset += 1;
            after_offset += 1;
            let next = match_check(
                &self.buffer,
                self.target.as_slice(),
                before_offset,
                target_offset,
                after_offset,
                end_offset,
                self.global_target_offset,
            );
            proof {
                lemma_check_reports_found(
                    rest,
                    self@.target,
                    self@.before_context,
                    self@.after_context,
                    target_offset as int,
                    self@.global_target_offset as int,
                );
                assert(rest.subrange(target_offset as int, after_offset as int)
                    =~= self@.window.subrange(target_offset as int, after_offset as int));
                assert(rest.subrange(before_offset as int, target_offset as int)
                    =~= self@.window.subrange(before_offset as int, target_offset as int));
                assert(rest.subrange(after_offset as int, end_offset as int)
                    =~= self@.window.subrange(after_offset as int, end_offset as int));
                lemma_shift_appended(
                    occurrences_between(
                        rest,
                        self@.target,
                        self@.before_context,
                        self@.after_context,
                        start + 1,
                        target_offset as int,
                    ),
                    found_at(
                        rest,
                        self@.target,
                        self@.before_context,
                        self@.after_context,
                        target_offset as int,
                    ),
                    self@.global_target_offset as int,
                );
            }
            push_found(&mut found, next);
        }
        found
    }
}

} // verus!

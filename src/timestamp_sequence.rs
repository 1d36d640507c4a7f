use std::sync::atomic::{AtomicU64, Ordering};
use vstd::prelude::*;

use crate::config::{build_mask, low_mask, BitLayout, SnowflakeConfig};
use crate::error::SnowflakeGeneratorError;
use crate::protocol::{advance_word, lemma_decoded_bounds, lemma_start_word, lemma_swap_is_advance};

verus! {

/// A timestamp and a sequence number that were handed out together.
pub struct TimestampSequence {
    pub sequence: u64,
    pub timestamp: u64,
}

impl TimestampSequence {
    /// Assembles the snowflake of this timestamp and sequence on the given
    /// machine: timestamp, machine id and sequence from high bits to low,
    /// each cut to the width of its field.
    pub fn into_snowflake(self, machine_id: u64, config: &SnowflakeConfig) -> (r: u64)
        ensures
            r == config@.compose(self.timestamp, machine_id, self.sequence),
    {
        let shift = config.timestamp_shift();
        let timestamp_bits = self.timestamp & config.timestamp_mask();
        let machine_id_bits = machine_id & config.machine_id_mask();
        let sequence_id_bits = self.sequence & config.sequence_mask();

        timestamp_bits << shift | machine_id_bits << config.sequence_bits() | sequence_id_bits
    }
}

/// Mask of the sequence region of the counter word: every bit below the
/// tick. It is wider than the sequence field (by the machine-id width), so
/// that going past the last sequence number is seen after the fact, and keeps
/// being seen, instead of wrapping back to a sequence already handed out.
pub open spec fn sequence_region_mask(layout: BitLayout) -> u64 {
    low_mask(layout.timestamp_shift())
}

/// Mask of the timestamp subfield of the counter word, in place.
pub open spec fn shifted_timestamp_mask(layout: BitLayout) -> u64 {
    layout.timestamp_mask() << layout.timestamp_shift()
}

/// The tick stored in a counter word.
pub open spec fn word_tick(layout: BitLayout, word: u64) -> u64 {
    (word & shifted_timestamp_mask(layout)) >> layout.timestamp_shift()
}

/// The sequence stored in a counter word: all the bits below the tick.
pub open spec fn word_sequence(layout: BitLayout, word: u64) -> u64 {
    word & sequence_region_mask(layout)
}

/// What a call hands out when the counter held `word` just before its
/// increment: the stored tick and sequence, or `SequenceOverflow` when the
/// sequence is past the last one that the sequence field can hold.
pub open spec fn decode_word(layout: BitLayout, word: u64) -> Result<
    TimestampSequence,
    SnowflakeGeneratorError,
> {
    if word_sequence(layout, word) > layout.sequence_max() {
        Err(SnowflakeGeneratorError::SequenceOverflow)
    } else {
        Ok(
            TimestampSequence {
                sequence: word_sequence(layout, word),
                timestamp: word_tick(layout, word),
            },
        )
    }
}

/// Stores both the current tick and the sequence within that tick in a
/// single atomic word, so that moving to a new tick (which resets the
/// sequence) and taking the next sequence number are each one atomic step.
///
/// The sequence counts up in all the bits below the tick, which are wider
/// than the sequence field: taking more sequence numbers than a tick has is
/// detected after the fact, and every later call in that tick fails too. The
/// tick sits at the timestamp shift of the configuration, as wide as the
/// timestamp field.
///
/// Every change of the word is one of two steps: an advance to a later tick,
/// made by a successful compare-and-swap, which leaves the sequence at zero;
/// or an increment, made by the fetch-add of each call, whose value before
/// the add is what [`decode_word`] turns into the call's result.
pub struct TimestampSequenceGenerator {
    inner: AtomicU64,
    config: SnowflakeConfig,
    shifted_timestamp_mask: u64,
    sequence_region_mask: u64,
}

impl TimestampSequenceGenerator {
    /// The layout of the configuration that the counter was made with.
    pub closed spec fn layout(&self) -> BitLayout {
        self.config@
    }

    /// The cached masks are those of the configuration's layout.
    #[verifier::type_invariant]
    closed spec fn well_formed(self) -> bool {
        &&& self.config@.valid()
        &&& self.shifted_timestamp_mask == shifted_timestamp_mask(self.config@)
        &&& self.sequence_region_mask == sequence_region_mask(self.config@)
    }

    /// Creates a counter at the given tick, with sequence zero: its word is
    /// [`TimestampSequenceGenerator::start_word`] of the tick.
    pub fn new(timestamp: u64, config: SnowflakeConfig) -> (r: Self)
        requires
            timestamp <= config@.timestamp_mask(),
        ensures
            r.layout() == config@,
    {
        let shift = config.timestamp_shift();
        let shifted_timestamp = Self::start_word(timestamp, &config);
        let sequence_region_mask = build_mask(shift);
        let shifted_timestamp_mask = config.timestamp_mask() << shift;

        TimestampSequenceGenerator {
            inner: AtomicU64::new(shifted_timestamp),
            config,
            shifted_timestamp_mask,
            sequence_region_mask,
        }
    }

    /// The first word of a tick: the tick in place, with sequence zero. The
    /// next call at that tick reads it as the tick with sequence zero.
    pub fn start_word(timestamp: u64, config: &SnowflakeConfig) -> (r: u64)
        requires
            timestamp <= config@.timestamp_mask(),
        ensures
            r == timestamp << config@.timestamp_shift(),
            decode_word(config@, r) == Ok::<TimestampSequence, SnowflakeGeneratorError>(
                TimestampSequence { sequence: 0, timestamp },
            ),
    {
        let shift = config.timestamp_shift();
        proof {
            lemma_start_word(config@, timestamp);
        }
        timestamp << shift
    }

    /// The word that a caller at tick `candidate` swaps in when it finds
    /// `word`: the candidate's first word, if the stored tick is behind it;
    /// `None` when the stored tick is already at or past the candidate.
    pub fn advance_target(&self, word: u64, candidate: u64) -> (r: Option<u64>)
        requires
            candidate <= self.layout().timestamp_mask(),
        ensures
            r == (if word_tick(self.layout(), word) < candidate {
                Some(advance_word(self.layout(), word, candidate))
            } else {
                None::<u64>
            }),
    {
        proof {
            use_type_invariant(self);
            lemma_swap_is_advance(self.config@, word, candidate);
        }
        let candidate_shifted = candidate << self.config.timestamp_shift();
        if candidate_shifted <= word & self.shifted_timestamp_mask {
            None
        } else {
            Some(candidate_shifted)
        }
    }

    /// Reads the result of a call out of the counter word as it was just
    /// before the call's increment.
    pub fn decode(&self, word: u64) -> (r: Result<TimestampSequence, SnowflakeGeneratorError>)
        ensures
            r == decode_word(self.layout(), word),
    {
        proof {
            use_type_invariant(self);
        }
        let masked_sequence = word & self.sequence_region_mask;
        if masked_sequence > self.config.sequence_max() {
            Err(SnowflakeGeneratorError::SequenceOverflow)
        } else {
            let sequence = masked_sequence;
            let timestamp = (word & self.shifted_timestamp_mask) >> self.config.timestamp_shift();
            Ok(TimestampSequence { sequence, timestamp })
        }
    }

    /// Takes the next sequence number at tick `new_timestamp`, first moving
    /// the stored tick forward to it if it is behind.
    ///
    /// Each exchange it attempts swaps the word it last saw for
    /// [`TimestampSequenceGenerator::advance_target`] of that word. Other
    /// threads may change the word at any moment, so what is known of the
    /// result is that it is what [`decode_word`] gives for some word: the one
    /// that the increment of this call found.
    pub fn increment_sequence(&self, new_timestamp: u64) -> (r: Result<
        TimestampSequence,
        SnowflakeGeneratorError,
    >)
        requires
            new_timestamp <= self.layout().timestamp_mask(),
        ensures
            exists|word: u64| r == decode_word(self.layout(), word),
            r matches Ok(ts) ==> ts.sequence <= self.layout().sequence_max() && ts.timestamp
                <= self.layout().timestamp_mask(),
    {
        proof {
            use_type_invariant(self);
        }
        let mut prev_sequence = self.inner.load(Ordering::SeqCst);

        loop
            invariant
                new_timestamp <= self.layout().timestamp_mask(),
            decreases u64::MAX - prev_sequence,
        {
            let new_timestamp_shifted = match self.advance_target(prev_sequence, new_timestamp) {
                // The stored tick is already at or past ours.
                None => break,
                Some(target) => target,
            };
            match self.inner.compare_exchange(
                prev_sequence,
                new_timestamp_shifted,
                Ordering::SeqCst,
                Ordering::SeqCst,
            ) {
                Ok(_) => break,
                Err(updated) => {
                    // The word only ever grows, so a failed exchange reports a
                    // larger value than the one it expected. Anything else
                    // cannot be the current word, and is not retried.
                    if updated <= prev_sequence {
                        break;
                    }
                    prev_sequence = updated;
                },
            }
        }

        let new_timestamp_sequence = self.inner.fetch_add(1, Ordering::SeqCst);
        let r = self.decode(new_timestamp_sequence);
        proof {
            lemma_decoded_bounds(self.config@, new_timestamp_sequence);
        }
        r
    }
}

} // verus!

use vstd::prelude::*;

use crate::config::{BitLayout, SnowflakeConfig};
use crate::error::SnowflakeGeneratorError;
use crate::timestamp_sequence::{decode_word, TimestampSequenceGenerator};

verus! {

/// The tick of a time reading relative to the epoch: the reading's own error
/// when the time source failed, and `TimestampOverflow` when the tick does not
/// fit below the largest timestamp (a reading before the epoch never fits).
pub open spec fn relative_timestamp(
    reading: Result<u64, &'static str>,
    epoch: u64,
    layout: BitLayout,
) -> Result<u64, SnowflakeGeneratorError> {
    match reading {
        Err(message) => Err(SnowflakeGeneratorError::TimestampError(message)),
        Ok(now) => if now < epoch || now - epoch >= layout.timestamp_max() {
            Err(SnowflakeGeneratorError::TimestampOverflow)
        } else {
            Ok((now - epoch) as u64)
        },
    }
}

/// What `generate` returns when the time source gave `reading` and the
/// counter word was `word` just before the call's increment.
pub open spec fn snowflake_outcome(
    layout: BitLayout,
    machine_id: u64,
    epoch: u64,
    reading: Result<u64, &'static str>,
    word: u64,
) -> Result<u64, SnowflakeGeneratorError> {
    match relative_timestamp(reading, epoch, layout) {
        Err(e) => Err(e),
        Ok(_) => match decode_word(layout, word) {
            Err(e) => Err(e),
            Ok(ts) => Ok(layout.compose(ts.timestamp, machine_id, ts.sequence)),
        },
    }
}

/// Turns a time reading into a tick relative to the epoch; see
/// [`relative_timestamp`]. A reading before the epoch is refused with
/// `TimestampOverflow` rather than wrapped around.
pub fn epoch_relative(
    reading: Result<u64, &'static str>,
    epoch: u64,
    config: &SnowflakeConfig,
) -> (r: Result<u64, SnowflakeGeneratorError>)
    ensures
        r == relative_timestamp(reading, epoch, config@),
        r matches Ok(t) ==> t < config@.timestamp_mask(),
{
    match reading {
        Err(message) => Err(SnowflakeGeneratorError::from(message)),
        Ok(now) => {
            if now < epoch {
                return Err(SnowflakeGeneratorError::TimestampOverflow);
            }
            let timestamp_ms = now - epoch;
            if timestamp_ms < config.timestamp_max() {
                Ok(timestamp_ms)
            } else {
                Err(SnowflakeGeneratorError::TimestampOverflow)
            }
        },
    }
}

/// A generator of unique snowflakes for one machine.
///
/// It reads the time from the time source that it was given (milliseconds
/// since some reference point, or an error message), subtracts the epoch,
/// and takes a sequence number for that tick from its counter. It can be
/// shared between threads: generating needs only `&self`.
pub struct SnowflakeGenerator<T> where T: Fn() -> Result<u64, &'static str> {
    machine_id: u32,
    ts_gen: TimestampSequenceGenerator,
    epoch: u64,
    get_timestamp: T,
    config: SnowflakeConfig,
}

impl<T> SnowflakeGenerator<T> where T: Fn() -> Result<u64, &'static str> {
    /// The layout of the generator's configuration.
    pub closed spec fn layout(&self) -> BitLayout {
        self.config@
    }

    /// The machine id put into every snowflake.
    pub closed spec fn machine_id(&self) -> u32 {
        self.machine_id
    }

    /// The epoch subtracted from every time reading.
    pub closed spec fn epoch(&self) -> u64 {
        self.epoch
    }

    /// The time source that the generator reads.
    pub closed spec fn time_source(&self) -> T {
        self.get_timestamp
    }

    /// The counter uses the generator's layout, and the time source can be
    /// called at any time.
    #[verifier::type_invariant]
    closed spec fn well_formed(self) -> bool {
        &&& self.ts_gen.layout() == self.config@
        &&& self.get_timestamp.requires(())
    }

    /// Creates a generator with the default layout of 41 timestamp bits,
    /// 10 machine-id bits and 12 sequence bits; otherwise as
    /// [`SnowflakeGenerator::new_with_config`].
    pub fn new(machine_id: u32, epoch: u64, get_timestamp: T) -> (r: Result<
        Self,
        SnowflakeGeneratorError,
    >)
        requires
            get_timestamp.requires(()),
        ensures
            exists|reading: Result<u64, &'static str>|
                {
                    &&& get_timestamp.ensures((), reading)
                    &&& r is Ok <==> relative_timestamp(
                        reading,
                        epoch,
                        BitLayout::default_layout(),
                    ) is Ok
                    &&& r matches Err(e) ==> relative_timestamp(
                        reading,
                        epoch,
                        BitLayout::default_layout(),
                    ) == Err::<u64, _>(e)
                },
            r matches Ok(g) ==> {
                &&& g.layout() == BitLayout::default_layout()
                &&& g.machine_id() == machine_id
                &&& g.epoch() == epoch
                &&& g.time_source() == get_timestamp
            },
    {
        let config = SnowflakeConfig::default();
        Self::new_with_config(machine_id, epoch, get_timestamp, config)
    }

    /// Creates a generator with the given configuration. The time source is
    /// read once: a failure is returned as `TimestampError`, and a tick that
    /// does not fit the timestamp field as `TimestampOverflow`; otherwise the
    /// counter starts at that tick. The machine id is not checked against
    /// the width of its field: bits beyond it are cut off in each snowflake.
    pub fn new_with_config(
        machine_id: u32,
        epoch: u64,
        get_timestamp: T,
        config: SnowflakeConfig,
    ) -> (r: Result<Self, SnowflakeGeneratorError>)
        requires
            get_timestamp.requires(()),
        ensures
            exists|reading: Result<u64, &'static str>|
                {
                    &&& get_timestamp.ensures((), reading)
                    &&& r is Ok <==> relative_timestamp(reading, epoch, config@) is Ok
                    &&& r matches Err(e) ==> relative_timestamp(reading, epoch, config@) == Err::<
                        u64,
                        _,
                    >(e)
                },
            r matches Ok(g) ==> {
                &&& g.layout() == config@
                &&& g.machine_id() == machine_id
                &&& g.epoch() == epoch
                &&& g.time_source() == get_timestamp
            },
    {
        let timestamp_ms = match Self::get_epoch_relative_timestamp(
            &get_timestamp,
            epoch,
            &config,
        ) {
            Ok(t) => t,
            Err(e) => return Err(e),
        };
        let ts_gen = TimestampSequenceGenerator::new(timestamp_ms, config);
        Ok(SnowflakeGenerator { machine_id, ts_gen, epoch, get_timestamp, config })
    }

    /// Generates a new snowflake.
    ///
    /// Reads the time source (its failure is returned as `TimestampError`),
    /// fails with `TimestampOverflow` when the tick does not fit, takes the
    /// next sequence number of that tick (`SequenceOverflow` when the tick
    /// has none left), and assembles timestamp, machine id and sequence.
    /// Whatever the time source and the other threads did, the result is
    /// [`snowflake_outcome`] of a reading of the time source and of a value
    /// of the counter word.
    pub fn generate(&self) -> (r: Result<u64, SnowflakeGeneratorError>)
        ensures
            exists|reading: Result<u64, &'static str>, word: u64|
                {
                    &&& self.time_source().ensures((), reading)
                    &&& r == #[trigger] snowflake_outcome(
                        self.layout(),
                        self.machine_id() as u64,
                        self.epoch(),
                        reading,
                        word,
                    )
                },
    {
        proof {
            use_type_invariant(self);
        }
        let new_timestamp = Self::get_epoch_relative_timestamp(
            &self.get_timestamp,
            self.epoch,
            &self.config,
        );
        let ghost reading = choose|reading: Result<u64, &'static str>|
            {
                &&& self.get_timestamp.ensures((), reading)
                &&& new_timestamp == relative_timestamp(reading, self.epoch, self.config@)
            };
        let new_timestamp = match new_timestamp {
            Ok(t) => t,
            Err(e) => {
                assert(snowflake_outcome(self.layout(), self.machine_id() as u64, self.epoch(), reading, 0)
                    == Err::<u64, SnowflakeGeneratorError>(e));
                return Err(e);
            },
        };
        let timestamp_sequence = self.ts_gen.increment_sequence(new_timestamp);
        let ghost word = choose|word: u64|
            timestamp_sequence == decode_word(self.ts_gen.layout(), word);
        let timestamp_sequence = match timestamp_sequence {
            Ok(ts) => ts,
            Err(e) => {
                assert(snowflake_outcome(self.layout(), self.machine_id() as u64, self.epoch(), reading, word)
                    == Err::<u64, SnowflakeGeneratorError>(e));
                return Err(e);
            },
        };
        let r = timestamp_sequence.into_snowflake(self.machine_id as u64, &self.config);
        assert(snowflake_outcome(self.layout(), self.machine_id() as u64, self.epoch(), reading, word)
            == Ok::<u64, SnowflakeGeneratorError>(r));
        Ok(r)
    }

    /// Reads the time source and turns the reading into a tick relative to
    /// the epoch.
    fn get_epoch_relative_timestamp(
        get_timestamp: &T,
        epoch: u64,
        config: &SnowflakeConfig,
    ) -> (r: Result<u64, SnowflakeGeneratorError>)
        requires
            get_timestamp.requires(()),
        ensures
            exists|reading: Result<u64, &'static str>|
                {
                    &&& get_timestamp.ensures((), reading)
                    &&& r == relative_timestamp(reading, epoch, config@)
                },
            r matches Ok(t) ==> t < config@.timestamp_mask(),
    {
        let reading = get_timestamp();
        epoch_relative(reading, epoch, config)
    }
}

} // verus!

use vstd::prelude::*;

verus! {

/// Errors that can occur when configuring a generator or generating snowflakes.
///
/// - `SequenceOverflow`: more identifiers were asked for in one tick than the
///   sequence field can number.
/// - `TimestampOverflow`: the tick relative to the epoch no longer fits in the
///   timestamp field.
/// - `TimestampError`: the time source failed; carries its message.
/// - `InvalidBitConfig`: a field width is zero, or the widths add up to more
///   than 64 bits.
#[derive(Debug)]
pub enum SnowflakeGeneratorError {
    SequenceOverflow,
    TimestampOverflow,
    TimestampError(&'static str),
    InvalidBitConfig,
}

impl From<&'static str> for SnowflakeGeneratorError {
    /// A time source's error message becomes a `TimestampError`.
    fn from(error: &'static str) -> (r: Self)
        ensures
            r == SnowflakeGeneratorError::TimestampError(error),
    {
        SnowflakeGeneratorError::TimestampError(error)
    }
}

impl vstd::std_specs::convert::FromSpecImpl<&'static str> for SnowflakeGeneratorError {
    open spec fn obeys_from_spec() -> bool {
        true
    }

    open spec fn from_spec(error: &'static str) -> Self {
        SnowflakeGeneratorError::TimestampError(error)
    }
}

} // verus!

//! Unique 64-bit (or narrower) snowflake identifiers for distributed systems.
//!
//! Each identifier packs, from high bits to low, a tick relative to an epoch,
//! a machine id and a per-tick sequence number, so that independent machines
//! can mint unique, roughly time-ordered identifiers without coordinating.
//! The field widths are configurable through [`SnowflakeConfig`].
//!
//! - [`config`]: the bit layout and the masks and limits derived from it.
//! - [`timestamp_sequence`]: the lock-free counter of ticks and sequences.
//! - [`generator`]: reads the time source and assembles the snowflakes.
//! - [`protocol`]: the counter word as a state machine, with its laws.
pub mod config;
pub mod error;
pub mod generator;
pub mod protocol;
pub mod timestamp_sequence;

pub use config::{BitLayout, SnowflakeConfig};
pub use error::SnowflakeGeneratorError;
pub use generator::SnowflakeGenerator;
pub use protocol::CounterStep;
pub use timestamp_sequence::{TimestampSequence, TimestampSequenceGenerator};

use frostbit::{SnowflakeConfig, SnowflakeGeneratorError, TimestampSequenceGenerator};

#[test]
fn test_sequence_increment() {
    let old_timestamp = 0x1234;
    let config = SnowflakeConfig::default();
    let timestamp_sequence_generator = TimestampSequenceGenerator::new(old_timestamp, config);

    let timestamp_sequence = timestamp_sequence_generator
        .increment_sequence(old_timestamp)
        .unwrap();
    assert_eq!(timestamp_sequence.sequence, 0);
    assert_eq!(timestamp_sequence.timestamp, old_timestamp);

    let timestamp_sequence = timestamp_sequence_generator
        .increment_sequence(old_timestamp)
        .unwrap();
    assert_eq!(timestamp_sequence.sequence, 1);
    assert_eq!(timestamp_sequence.timestamp, old_timestamp);
}

#[test]
fn test_new_timestamp() {
    let old_timestamp = 0x1234;
    let config = SnowflakeConfig::default();
    let timestamp_sequence_generator = TimestampSequenceGenerator::new(old_timestamp, config);

    let timestamp_sequence = timestamp_sequence_generator
        .increment_sequence(old_timestamp)
        .unwrap();
    assert_eq!(timestamp_sequence.sequence, 0);
    assert_eq!(timestamp_sequence.timestamp, old_timestamp);

    let new_timestamp = 0x1235;
    let timestamp_sequence = timestamp_sequence_generator
        .increment_sequence(new_timestamp)
        .unwrap();
    assert_eq!(timestamp_sequence.sequence, 0);
    assert_eq!(timestamp_sequence.timestamp, new_timestamp);
}

#[test]
fn test_into_snowflake() {
    let old_timestamp = 0x1234;
    let config = SnowflakeConfig::default();
    let timestamp_sequence_generator = TimestampSequenceGenerator::new(old_timestamp, config);

    let timestamp_sequence = timestamp_sequence_generator
        .increment_sequence(old_timestamp)
        .unwrap();

    let snowflake = timestamp_sequence.into_snowflake(0x10, &config);
    assert_eq!(snowflake, 0x48d010000);
}

#[test]
fn older_candidate_keeps_stored_tick() {
    let config = SnowflakeConfig::default();
    let counter = TimestampSequenceGenerator::new(100, config);
    let first = counter.increment_sequence(100).unwrap();
    let second = counter.increment_sequence(99).unwrap();
    assert_eq!((first.timestamp, first.sequence), (100, 0));
    assert_eq!((second.timestamp, second.sequence), (100, 1));
}

#[test]
fn decode_reads_tick_and_sequence() {
    let config = SnowflakeConfig::default();
    let counter = TimestampSequenceGenerator::new(0, config);
    let ts = counter.decode((0x1234 << 22) | 5).unwrap();
    assert_eq!((ts.timestamp, ts.sequence), (0x1234, 5));
    let ts = counter.decode((0x1234 << 22) | 4_095).unwrap();
    assert_eq!((ts.timestamp, ts.sequence), (0x1234, 4_095));
    assert!(matches!(
        counter.decode((0x1234 << 22) | 4_096),
        Err(SnowflakeGeneratorError::SequenceOverflow)
    ));
    assert!(matches!(
        counter.decode((0x1234 << 22) | 8_191),
        Err(SnowflakeGeneratorError::SequenceOverflow)
    ));
    // Past the extended sequence the word still reads as overflowed.
    assert!(matches!(
        counter.decode((0x1234 << 22) + 8_192),
        Err(SnowflakeGeneratorError::SequenceOverflow)
    ));
    assert!(matches!(
        counter.decode((0x1234 << 22) | 0x3F_FFFF),
        Err(SnowflakeGeneratorError::SequenceOverflow)
    ));
}

#[test]
fn exhausted_tick_keeps_failing() {
    let config = SnowflakeConfig::default();
    let counter = TimestampSequenceGenerator::new(7, config);
    for i in 0..4_096u64 {
        let ts = counter.increment_sequence(7).unwrap();
        assert_eq!((ts.timestamp, ts.sequence), (7, i));
    }
    for _ in 0..5_000 {
        assert!(matches!(
            counter.increment_sequence(7),
            Err(SnowflakeGeneratorError::SequenceOverflow)
        ));
    }
    let ts = counter.increment_sequence(8).unwrap();
    assert_eq!((ts.timestamp, ts.sequence), (8, 0));
}

#[test]
fn start_word_places_the_tick() {
    let config = SnowflakeConfig::default();
    assert_eq!(TimestampSequenceGenerator::start_word(0x1234, &config), 0x48D000000);
    assert_eq!(TimestampSequenceGenerator::start_word(0, &config), 0);
    let mask = config.timestamp_max();
    assert_eq!(TimestampSequenceGenerator::start_word(mask, &config), mask << 22);
}

#[test]
fn advance_target_only_moves_forward() {
    let config = SnowflakeConfig::default();
    let counter = TimestampSequenceGenerator::new(0, config);
    let word = (10u64 << 22) | 3;
    assert_eq!(counter.advance_target(word, 11), Some(11 << 22));
    assert_eq!(counter.advance_target(word, 10), None);
    assert_eq!(counter.advance_target(word, 9), None);
}

#[test]
fn counter_accepts_largest_tick() {
    let config = SnowflakeConfig::new(8, 4, 4).unwrap();
    let counter = TimestampSequenceGenerator::new(0xFF, config);
    let ts = counter.increment_sequence(0xFF).unwrap();
    assert_eq!((ts.timestamp, ts.sequence), (0xFF, 0));
}

#[test]
fn into_snowflake_cuts_each_field() {
    let config = SnowflakeConfig::new(8, 4, 4).unwrap();
    let counter = TimestampSequenceGenerator::new(0x12, config);
    let ts = counter.increment_sequence(0x12).unwrap();
    assert_eq!(ts.into_snowflake(0xFB, &config), 0x12B0);
}

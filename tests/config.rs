use frostbit::{SnowflakeConfig, SnowflakeGeneratorError};

#[test]
fn test_invalid_config_too_many_bits() {
    let config = SnowflakeConfig::new(41, 10, 24);
    assert!(matches!(
        config,
        Err(SnowflakeGeneratorError::InvalidBitConfig)
    ));
}

#[test]
fn invalid_config_zero_timestamp_bits() {
    let config = SnowflakeConfig::new(0, 10, 24);
    assert!(matches!(
        config,
        Err(SnowflakeGeneratorError::InvalidBitConfig)
    ));
}

#[test]
fn invalid_config_zero_machine_id_bits() {
    let config = SnowflakeConfig::new(41, 0, 24);
    assert!(matches!(
        config,
        Err(SnowflakeGeneratorError::InvalidBitConfig)
    ));
}

#[test]
fn invalid_config_zero_sequence_bits() {
    let config = SnowflakeConfig::new(41, 10, 0);
    assert!(matches!(
        config,
        Err(SnowflakeGeneratorError::InvalidBitConfig)
    ));
}

#[test]
fn invalid_config_sum_of_65() {
    assert!(matches!(
        SnowflakeConfig::new(43, 10, 12),
        Err(SnowflakeGeneratorError::InvalidBitConfig)
    ));
    assert!(matches!(
        SnowflakeConfig::new(1, 1, 63),
        Err(SnowflakeGeneratorError::InvalidBitConfig)
    ));
}

#[test]
fn invalid_config_huge_widths() {
    assert!(matches!(
        SnowflakeConfig::new(u64::MAX, u64::MAX, 2),
        Err(SnowflakeGeneratorError::InvalidBitConfig)
    ));
    assert!(matches!(
        SnowflakeConfig::new(1, u64::MAX, 1),
        Err(SnowflakeGeneratorError::InvalidBitConfig)
    ));
}

#[test]
fn config_with_64_bits_is_valid() {
    let config = SnowflakeConfig::new(42, 10, 12).unwrap();
    assert_eq!(config.timestamp_max(), 0x3FF_FFFF_FFFF);
    assert_eq!(config.sequence_max(), 4095);
    let config = SnowflakeConfig::new(62, 1, 1).unwrap();
    assert_eq!(config.timestamp_max(), (1u64 << 62) - 1);
    assert_eq!(config.sequence_max(), 1);
}

#[test]
fn default_config_limits() {
    let config = SnowflakeConfig::default();
    assert_eq!(config.timestamp_max(), 2_199_023_255_551);
    assert_eq!(config.sequence_max(), 4_095);
}

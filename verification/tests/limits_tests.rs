use restrict::limits::{memory_settings, MaxValue, SetMemory, MEMORY_CEILING_MAX, MEMORY_FLOOR};

#[test]
fn ceiling_of_a_hundred_megabytes() {
    let settings = memory_settings(100_000_000);
    assert_eq!(
        settings,
        Some(SetMemory {
            low: None,
            high: Some(MaxValue::Max),
            min: Some(MaxValue::Value(1)),
            max: Some(MaxValue::Value(100_000_000)),
        })
    );
}

#[test]
fn floor_is_one_byte_whatever_the_ceiling() {
    assert_eq!(MEMORY_FLOOR, 1);
    for ceiling in [0u64, 1, 1000, 1024, 1 << 40, MEMORY_CEILING_MAX] {
        let settings = memory_settings(ceiling).unwrap();
        assert_eq!(settings.min, Some(MaxValue::Value(1)));
        assert_eq!(settings.high, Some(MaxValue::Max));
        assert_eq!(settings.low, None);
        assert_eq!(settings.max, Some(MaxValue::Value(ceiling as i64)));
    }
}

#[test]
fn ceiling_at_the_backend_limit() {
    assert_eq!(MEMORY_CEILING_MAX, i64::MAX as u64);
    assert_eq!(
        memory_settings(MEMORY_CEILING_MAX).unwrap().max,
        Some(MaxValue::Value(i64::MAX))
    );
}

#[test]
fn ceiling_beyond_the_backend_limit() {
    assert_eq!(memory_settings(MEMORY_CEILING_MAX + 1), None);
    assert_eq!(memory_settings(u64::MAX), None);
}

use keryx_rules::rocksdb_preset::{
    RocksDbPreset, RocksDbResources, RocksDbSetting, DA_1500_BLOB_CACHE_MIN_BYTES,
};

#[test]
fn test_preset_from_str() {
    assert_eq!(RocksDbPreset::from_str("default").unwrap(), RocksDbPreset::Default);
    assert_eq!(RocksDbPreset::from_str("Default").unwrap(), RocksDbPreset::Default);
    assert_eq!(RocksDbPreset::from_str("hdd").unwrap(), RocksDbPreset::Hdd);
    assert_eq!(RocksDbPreset::from_str("HDD").unwrap(), RocksDbPreset::Hdd);
    assert_eq!(RocksDbPreset::from_str("hdd-qd1").unwrap(), RocksDbPreset::HddQd1);
    assert!(RocksDbPreset::from_str("unknown").is_err());
}

/// Both presets must be applicable with and without shared resources (tests and tooling open
/// connections without them).
#[test]
fn test_presets_apply_with_and_without_resources() {
    let resources = RocksDbResources::new(16 * 1024 * 1024, 16 * 1024 * 1024, Some(1024 * 1024));
    for preset in [RocksDbPreset::Default, RocksDbPreset::Hdd, RocksDbPreset::HddQd1] {
        let plan = preset.apply_to_options(2, 64 * 1024 * 1024, None, false);
        assert!(!plan.is_empty());
        let plan = preset.apply_to_options(2, 64 * 1024 * 1024, Some(&resources), false);
        assert!(!plan.is_empty());
    }
}

#[test]
fn unknown_preset_message_lists_the_valid_names() {
    assert_eq!(
        RocksDbPreset::from_str("ssd").unwrap_err(),
        "Unknown RocksDB preset: 'ssd'. Valid options: default, hdd, hdd-qd1"
    );
    assert_eq!(RocksDbPreset::from_str("HDD_QD1").unwrap(), RocksDbPreset::HddQd1);
}

#[test]
fn preset_names_parse_back() {
    for preset in [RocksDbPreset::Default, RocksDbPreset::Hdd, RocksDbPreset::HddQd1] {
        assert_eq!(RocksDbPreset::from_str(preset.name()).unwrap(), preset);
        assert_eq!(preset.to_string(), preset.name());
        assert!(!preset.description().is_empty());
        assert!(!preset.use_case().is_empty());
        assert!(!preset.memory_requirements().is_empty());
    }
    assert_eq!(RocksDbPreset::default(), RocksDbPreset::Default);
    assert_eq!(RocksDbPreset::Hdd.use_case(), "Archival nodes on HDD storage (--archival flag recommended)");
    assert_eq!(RocksDbPreset::Default.memory_requirements(), "~4GB minimum, scales with --ram-scale");
}

#[test]
fn blob_cache_is_three_quarters_of_the_block_cache_with_a_floor() {
    let small = RocksDbResources::new(16 * 1024 * 1024, 1, None);
    assert_eq!(small.blob_cache_bytes, DA_1500_BLOB_CACHE_MIN_BYTES);
    let large = RocksDbResources::new(4096 * 1024 * 1024, 1, None);
    assert_eq!(large.blob_cache_bytes, 3072 * 1024 * 1024);
    let huge = RocksDbResources::new(usize::MAX, 1, None);
    assert_eq!(huge.blob_cache_bytes, usize::MAX / 4);
}

#[test]
fn disabled_blob_files_turn_blob_writing_off() {
    for preset in [RocksDbPreset::Default, RocksDbPreset::Hdd, RocksDbPreset::HddQd1] {
        let on = preset.apply_to_options(4, 1 << 26, None, false);
        let off = preset.apply_to_options(4, 1 << 26, None, true);
        assert!(on.contains(&RocksDbSetting::EnableBlobFiles(true)));
        assert!(!off.contains(&RocksDbSetting::EnableBlobFiles(true)));
    }
}

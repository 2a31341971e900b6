use aes67_tools::output::{
    format_output_devices, partial_device_matches, sample_format_rank, select_output_config, select_output_device,
    DeviceChoice, DeviceSelectError, OutputConfigRange, OutputDeviceInfo, SampleFormatKind,
};

fn range(channels: u16, min: u32, max: u32, format: SampleFormatKind) -> OutputConfigRange {
    OutputConfigRange { channels, min_sample_rate: min, max_sample_rate: max, format }
}

fn names(list: &[&str]) -> Vec<String> {
    list.iter().map(|s| s.to_string()).collect()
}

#[test]
fn sample_formats_are_ranked_float_first() {
    assert_eq!(sample_format_rank(SampleFormatKind::F32), Some(0));
    assert_eq!(sample_format_rank(SampleFormatKind::I16), Some(1));
    assert_eq!(sample_format_rank(SampleFormatKind::U16), Some(2));
    assert_eq!(sample_format_rank(SampleFormatKind::F64), Some(3));
    assert_eq!(sample_format_rank(SampleFormatKind::I32), Some(4));
    assert_eq!(sample_format_rank(SampleFormatKind::U32), Some(5));
    assert_eq!(sample_format_rank(SampleFormatKind::I8), None);
    assert_eq!(sample_format_rank(SampleFormatKind::Other), None);
}

#[test]
fn output_config_prefers_the_best_format_that_fits() {
    let ranges = vec![
        range(2, 44_100, 48_000, SampleFormatKind::I16),
        range(8, 8_000, 192_000, SampleFormatKind::F32),
        range(2, 8_000, 192_000, SampleFormatKind::F32),
        range(2, 8_000, 192_000, SampleFormatKind::F32),
        range(2, 96_000, 192_000, SampleFormatKind::F32),
    ];
    assert_eq!(select_output_config(&ranges, 48_000, 2), Some(2));
    assert_eq!(select_output_config(&ranges, 44_100, 8), Some(1));
    assert_eq!(select_output_config(&ranges, 48_000, 4), None);
    let only_unusable = vec![range(2, 8_000, 192_000, SampleFormatKind::I8)];
    assert_eq!(select_output_config(&only_unusable, 48_000, 2), None);
}

#[test]
fn output_device_selector_picks_by_index_name_or_unique_substring() {
    let devices = names(&["Built-in Audio", "USB Interface", "USB Headset", "Speakers"]);
    assert_eq!(select_output_device(None, &devices), Ok(DeviceChoice::Default));
    assert_eq!(select_output_device(Some("   "), &devices), Ok(DeviceChoice::Default));
    assert_eq!(select_output_device(Some("1"), &devices), Ok(DeviceChoice::Index(1)));
    assert_eq!(select_output_device(Some(" +3 "), &devices), Ok(DeviceChoice::Index(3)));
    assert_eq!(
        select_output_device(Some("9"), &devices),
        Err(DeviceSelectError::NoDeviceAtIndex { index: 9 })
    );
    assert_eq!(select_output_device(Some("Speakers"), &devices), Ok(DeviceChoice::Index(3)));
    assert_eq!(select_output_device(Some("built-in"), &devices), Ok(DeviceChoice::Index(0)));
    assert_eq!(
        select_output_device(Some("usb"), &devices),
        Err(DeviceSelectError::Ambiguous { matches: vec![1, 2] })
    );
    assert_eq!(select_output_device(Some("HDMI"), &devices), Err(DeviceSelectError::NoMatch));
}

#[test]
fn exact_device_name_wins_over_longer_names_that_hold_it() {
    let devices = names(&["Headphones USB", "Headphones"]);
    assert_eq!(select_output_device(Some("Headphones"), &devices), Ok(DeviceChoice::Index(1)));
}

#[test]
fn device_listing_shows_each_device_with_its_configs() {
    let devices = vec![
        OutputDeviceInfo {
            name: "Built-in Audio".to_string(),
            configs: Ok(vec![range(2, 44_100, 48_000, SampleFormatKind::F32)]),
        },
        OutputDeviceInfo { name: "Broken".to_string(), configs: Err("device gone".to_string()) },
    ];
    assert_eq!(
        format_output_devices(&devices),
        "Audio output devices:\n  [0] Built-in Audio\n      2ch F32 44100-48000 Hz\n  [1] Broken\n      failed to query supported configs: device gone\n"
    );
    assert_eq!(format_output_devices(&Vec::new()), "Audio output devices:\n  no output devices found\n");
}

#[test]
fn lowercase_names_holding_the_selector_are_listed_in_order() {
    let lower = names(&["usb interface", "built-in", "usb headset"]);
    assert_eq!(partial_device_matches("usb", &lower), vec![0, 2]);
    assert_eq!(partial_device_matches("in", &lower), vec![0, 1]);
    assert_eq!(partial_device_matches("hdmi", &lower), Vec::<usize>::new());
}

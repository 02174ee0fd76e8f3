use acars_oxide::decoders::{ValidDecoderType, INTRATE, RTLOUTBUFSZ};
use acars_oxide::device::{
    channel_frequency, closest_gain, find_device_index, select_gain, sort_frequencies,
    DeviceAttributes, DeviceConfig, GainSetting, RTLSDRError,
};

fn config(freqs: &[u32]) -> DeviceConfig {
    DeviceConfig::new(
        "00000001".to_string(),
        0,
        421,
        false,
        160,
        freqs.to_vec(),
        ValidDecoderType::ACARS,
    )
}

#[test]
fn four_channel_plan() {
    let c = config(&[131_550_000, 130_025_000, 131_125_000, 130_450_000]);
    assert_eq!(
        c.frequencies,
        vec![130_025_000, 130_450_000, 131_125_000, 131_550_000]
    );
    let plan = c.init_channels().unwrap();
    assert_eq!(plan.center_freq, 131_000_000);
    assert_eq!(
        plan.channel_freqs,
        vec![130_025_000, 130_450_000, 131_125_000, 131_550_000]
    );
    assert_eq!(plan.sample_rate, 2_000_000);
    assert_eq!(c.sample_rate(), 2_000_000);
    assert_eq!(c.get_serial(), "00000001");
}

#[test]
fn single_channel_is_its_own_center() {
    let plan = config(&[131_551_000]).init_channels().unwrap();
    assert_eq!(plan.channel_freqs, vec![131_550_000]);
    assert_eq!(plan.center_freq, 131_550_000);
}

#[test]
fn sixteen_channels() {
    let freqs: Vec<u32> = (0..16).map(|i| 130_000_000 + i * 100_000).collect();
    let plan = config(&freqs).init_channels().unwrap();
    assert_eq!(plan.channel_freqs.len(), 16);
    assert_eq!(plan.channel_freqs[15], 131_500_000);
    assert_eq!(plan.center_freq, 131_000_000);
}

#[test]
fn spread_of_exactly_two_mhz_is_accepted() {
    let plan = config(&[130_000_000, 132_000_000]).init_channels().unwrap();
    assert_eq!(plan.center_freq, 131_000_000);
    assert_eq!(
        config(&[130_000_000, 132_000_010]).init_channels().err(),
        Some(RTLSDRError::FrequencySpreadTooLarge {
            sdr: "00000001".to_string()
        })
    );
}

#[test]
fn spread_error_for_130_and_132_01() {
    assert_eq!(
        config(&[130_000_000, 132_010_000]).init_channels().err(),
        Some(RTLSDRError::FrequencySpreadTooLarge {
            sdr: "00000001".to_string()
        })
    );
}

#[test]
fn no_frequency() {
    assert_eq!(
        config(&[]).init_channels().err(),
        Some(RTLSDRError::NoFrequencyProvided {
            sdr: "00000001".to_string()
        })
    );
}

#[test]
fn duplicates_are_removed() {
    assert_eq!(
        sort_frequencies(&vec![131_000_000, 130_000_000, 131_000_000, 130_500_000, 130_000_000]),
        vec![130_000_000, 130_500_000, 131_000_000]
    );
    assert_eq!(sort_frequencies(&vec![]), Vec::<u32>::new());
}

#[test]
fn channel_rounding() {
    assert_eq!(channel_frequency(130_024_997), 130_025_000);
    assert_eq!(channel_frequency(130_006_250), 130_012_500);
    assert_eq!(channel_frequency(130_006_249), 130_000_000);
}

#[test]
fn decoder_rates() {
    assert_eq!(ValidDecoderType::ACARS.get_intrate(), INTRATE);
    assert_eq!(ValidDecoderType::VDL2.get_intrate(), 0);
    assert_eq!(ValidDecoderType::ACARS.get_rtloutbufsz(), RTLOUTBUFSZ);
    assert_eq!(ValidDecoderType::HFDL.get_rtloutbufsz(), 0);
}

#[test]
fn gain_normalization() {
    let r820t = vec![
        0, 9, 14, 27, 37, 77, 87, 125, 144, 157, 166, 197, 207, 229, 254, 280, 297, 328, 338, 364,
        372, 386, 402, 421, 434, 439, 445, 480, 496, 0, 0, 0,
    ];
    assert_eq!(closest_gain(&r820t, 420), 421);
    assert_eq!(closest_gain(&r820t, 421), 421);
    assert_eq!(closest_gain(&r820t, 0), 0);
    assert_eq!(closest_gain(&r820t, 600), 496);
    assert_eq!(closest_gain(&vec![10, 20], 15), 10);
    assert_eq!(closest_gain(&vec![0, 0, 0], 100), 0);
    assert_eq!(select_gain(420, &r820t), GainSetting::Manual(421));
    assert_eq!(select_gain(501, &r820t), GainSetting::Agc);
    assert_eq!(select_gain(500, &r820t), GainSetting::Manual(496));
}

#[test]
fn device_lookup() {
    let devs = vec![
        DeviceAttributes::new(0, "Realtek".to_string(), "RTL2838".to_string(), "A".to_string()),
        DeviceAttributes::new(1, "Realtek".to_string(), "RTL2838".to_string(), "B".to_string()),
        DeviceAttributes::new(2, "Realtek".to_string(), "RTL2838".to_string(), "A".to_string()),
    ];
    assert_eq!(find_device_index(&devs, &"A".to_string()), Some(2));
    assert_eq!(find_device_index(&devs, &"B".to_string()), Some(1));
    assert_eq!(find_device_index(&devs, &"C".to_string()), None);
    assert_eq!(devs[1].index(), 1);
    assert_eq!(devs[1].vendor(), "Realtek");
    assert_eq!(devs[1].product(), "RTL2838");
    assert_eq!(devs[1].serial(), "B");
}

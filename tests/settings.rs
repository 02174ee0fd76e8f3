use acars_oxide::config::{
    decoder_type_from_upper, parse_decimal, parse_sdr_gain, validate_decoding_type,
    validate_freq, validate_mult, OxideInputError, SDRConfig,
};
use acars_oxide::decoders::ValidDecoderType;

#[test]
fn mult_values() {
    assert_eq!(validate_mult("160"), Ok(160));
    assert_eq!(validate_mult("192"), Ok(192));
    assert_eq!(validate_mult("+160"), Ok(160));
    assert_eq!(validate_mult("161"), Err(OxideInputError::Mult { input: 161 }));
    assert_eq!(validate_mult("-192"), Err(OxideInputError::Mult { input: -192 }));
    assert_eq!(validate_mult("abc"), Err(OxideInputError::ParseInt));
    assert_eq!(validate_mult(""), Err(OxideInputError::ParseInt));
    assert_eq!(validate_mult("99999999999"), Err(OxideInputError::ParseInt));
}

#[test]
fn decoder_names() {
    assert_eq!(validate_decoding_type("acars"), Ok(ValidDecoderType::ACARS));
    assert_eq!(validate_decoding_type("AcArS"), Ok(ValidDecoderType::ACARS));
    assert_eq!(validate_decoding_type("vdlm2"), Ok(ValidDecoderType::VDL2));
    assert_eq!(
        validate_decoding_type("hfdl"),
        Err(OxideInputError::DecodingType {
            input: "hfdl".to_string()
        })
    );
    assert_eq!(decoder_type_from_upper("ACARS", "x"), Ok(ValidDecoderType::ACARS));
    assert_eq!(
        decoder_type_from_upper("acars", "acars"),
        Err(OxideInputError::DecodingType {
            input: "acars".to_string()
        })
    );
}

#[test]
fn gains() {
    assert_eq!(parse_sdr_gain("42"), Ok(420));
    assert_eq!(parse_sdr_gain("42.9"), Ok(420));
    assert_eq!(parse_sdr_gain("0"), Ok(0));
    assert_eq!(parse_sdr_gain("-0.0"), Ok(0));
    assert_eq!(parse_sdr_gain("60"), Ok(600));
    assert_eq!(parse_sdr_gain("60.000"), Ok(600));
    assert_eq!(
        parse_sdr_gain("60.1"),
        Err(OxideInputError::GainRange {
            input: "60.1".to_string()
        })
    );
    assert_eq!(
        parse_sdr_gain("-1"),
        Err(OxideInputError::GainRange {
            input: "-1".to_string()
        })
    );
    assert_eq!(parse_sdr_gain("4x"), Err(OxideInputError::ParseFloat));
    assert_eq!(parse_sdr_gain("."), Err(OxideInputError::ParseFloat));
}

#[test]
fn frequencies() {
    assert_eq!(validate_freq("130.025"), Ok(130_025_000));
    assert_eq!(validate_freq("131.55"), Ok(131_550_000));
    assert_eq!(validate_freq("132.01"), Ok(132_010_000));
    assert_eq!(validate_freq("108"), Ok(108_000_000));
    assert_eq!(validate_freq("137.0"), Ok(137_000_000));
    assert_eq!(validate_freq("130.0250009"), Ok(130_025_000));
    assert_eq!(
        validate_freq("137.0001"),
        Err(OxideInputError::FrequencyOutsideOfAirband {
            freq: "137.0001".to_string()
        })
    );
    assert_eq!(
        validate_freq("107.999"),
        Err(OxideInputError::FrequencyOutsideOfAirband {
            freq: "107.999".to_string()
        })
    );
    assert_eq!(
        validate_freq("-130"),
        Err(OxideInputError::FrequencyOutsideOfAirband {
            freq: "-130".to_string()
        })
    );
    assert_eq!(validate_freq("1e2"), Err(OxideInputError::ParseFloat));
    assert_eq!(validate_freq(""), Err(OxideInputError::ParseFloat));
    assert_eq!(validate_freq("130..1"), Err(OxideInputError::ParseFloat));
}

#[test]
fn decimal_parts() {
    let d = parse_decimal("+12.3456789").unwrap();
    assert!(!d.negative);
    assert_eq!(d.int_part, 12);
    assert_eq!(d.micro, 345_678);
    assert!(!d.frac_zero);
    let d = parse_decimal(".5").unwrap();
    assert_eq!(d.int_part, 0);
    assert_eq!(d.micro, 500_000);
    let d = parse_decimal("123456.").unwrap();
    assert_eq!(d.int_part, 1000);
    assert!(d.frac_zero);
    assert!(parse_decimal("-").is_none());
    assert!(parse_decimal("1.2.3").is_none());
}

#[test]
fn sdr_config_fields() {
    let c = SDRConfig::new(
        Some(420),
        Some(-3),
        Some(true),
        Some(192),
        Some(vec!["130.025".to_string(), "131.55".to_string()]),
        Some("00000001".to_string()),
    );
    assert_eq!(c.get_gain(), Some(420));
    assert_eq!(c.get_ppm(), Some(-3));
    assert_eq!(c.get_bias_tee(), Some(true));
    assert_eq!(c.get_mult(), Some(192));
    assert_eq!(
        c.get_freq(),
        Some(vec!["130.025".to_string(), "131.55".to_string()])
    );
    assert_eq!(c.get_serial(), Some("00000001".to_string()));
    assert!(!c.is_empty());
    let e = SDRConfig::new(None, None, None, None, None, None);
    assert!(e.is_empty());
    assert_eq!(e.get_freq(), None);
    let only_serial = SDRConfig::new(None, None, None, None, None, Some("A".to_string()));
    assert!(!only_serial.is_empty());
}

use acars_oxide::crc::{crc_ccitt, crc_step, crc_table, crc_table_value};
use acars_oxide::parity::{count_bits, numbits_table, parity_ok};

#[test]
fn crc_check_value() {
    let t = crc_table();
    assert_eq!(crc_ccitt(&t, b"123456789"), 0x2189);
    assert_eq!(crc_ccitt(&t, b""), 0);
}

#[test]
fn crc_table_entries() {
    let t = crc_table();
    assert_eq!(t.len(), 256);
    assert_eq!(t[0], 0x0000);
    assert_eq!(t[1], 0x1189);
    assert_eq!(t[128], 0x8408);
    assert_eq!(t[255], 0x0f78);
    assert_eq!(crc_table_value(1), 0x1189);
}

#[test]
fn crc_round_trip_gives_zero() {
    let t = crc_table();
    for s in [&b""[..], b"A", b"2.N534UW", b"\x83\x97\x7f\x00\xff"] {
        let c = crc_ccitt(&t, s);
        let mut all = s.to_vec();
        all.push((c & 0xff) as u8);
        all.push((c >> 8) as u8);
        assert_eq!(crc_ccitt(&t, &all), 0);
    }
}

#[test]
fn crc_step_matches_whole_run() {
    let t = crc_table();
    let mut c = 0u16;
    for &b in b"ACARS" {
        c = crc_step(&t, c, b);
    }
    assert_eq!(c, crc_ccitt(&t, b"ACARS"));
}

#[test]
fn bit_counts() {
    assert_eq!(count_bits(0), 0);
    assert_eq!(count_bits(0xff), 8);
    assert_eq!(count_bits(0x16), 3);
    let t = numbits_table();
    assert_eq!(t.len(), 256);
    for b in 0..=255u8 {
        assert_eq!(t[b as usize] as u32, b.count_ones());
    }
}

#[test]
fn parity_of_characters() {
    let t = numbits_table();
    for b in [0x16u8, 0x01, 0x02, 0x83, 0x97, 0x7f] {
        assert!(parity_ok(&t, b));
    }
    assert!(!parity_ok(&t, 0x00));
    assert!(!parity_ok(&t, 0x03));
    assert!(parity_ok(&t, 0x80));
    for b in 0..=255u8 {
        assert_eq!(parity_ok(&t, b), t[b as usize] & 1 == 1);
        assert_ne!(parity_ok(&t, b), parity_ok(&t, b ^ 1));
    }
}

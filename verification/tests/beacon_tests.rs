use r2_composer::beacon::{
    fingerprint, parse_legacy_beacon, reconstruct_ad, BeaconError, BeaconFlags, BEACON_VERSION,
    R2_BEACON_MAGIC,
};
use r2_composer::date::{
    civil_from_days, days_to_ymd, format_iso8601, iso8601_utc, CIVIL_DAYS_MAX, MAX_ISO_SECS, MAX_YMD_DAYS,
};

/// Build a canonical 28-byte AD for testing.
fn build_test_ad(flags: u8, class_hash: [u8; 4], rbid: [u8; 8]) -> [u8; 28] {
    let mut ad = [0u8; 28];
    ad[0] = 0x1B;
    ad[1] = 0xFF;
    ad[2] = 0xFF;
    ad[3] = 0xFF;
    ad[4] = R2_BEACON_MAGIC;
    ad[5] = BEACON_VERSION;
    ad[6] = flags;
    ad[7..15].copy_from_slice(&rbid);
    ad[15..19].copy_from_slice(&class_hash);
    ad[19] = (-12i8) as u8;
    ad[20] = 0x39;
    ad[21] = 0x30; // 0x3039 = 12345 LE
    ad
}

#[test]
fn parses_canonical_provisioning_beacon() {
    let ad = build_test_ad(0b0010_0000, [0x43, 0x89, 0x5E, 0x89], [1, 2, 3, 4, 5, 6, 7, 8]);
    let b = parse_legacy_beacon(&ad).expect("parse");
    assert!(b.flags.provisioning, "provisioning flag set");
    assert!(!b.flags.mcu_mode);
    assert_eq!(b.class_hash, [0x43, 0x89, 0x5E, 0x89]);
    assert_eq!(b.rbid, [1, 2, 3, 4, 5, 6, 7, 8]);
    assert_eq!(b.tx_power, -12);
    assert_eq!(b.anti_collision, 12345);
    assert_eq!(b.version, BEACON_VERSION);
}

#[test]
fn rejects_short_buffer() {
    let short = [0u8; 27];
    assert_eq!(parse_legacy_beacon(&short), Err(BeaconError::TooShort));
}

#[test]
fn rejects_wrong_magic() {
    let mut ad = build_test_ad(0, [0; 4], [0; 8]);
    ad[4] = 0xC2; // not R2 magic
    assert_eq!(parse_legacy_beacon(&ad), Err(BeaconError::NotR2Beacon));
}

#[test]
fn rejects_unknown_version() {
    let mut ad = build_test_ad(0, [0; 4], [0; 8]);
    ad[5] = 0x02; // future version
    assert_eq!(parse_legacy_beacon(&ad), Err(BeaconError::InvalidVersion(0x02)));
}

#[test]
fn reconstruct_ad_handles_btleplug_strip() {
    let payload: Vec<u8> = vec![
        R2_BEACON_MAGIC,
        BEACON_VERSION,
        0b0010_0000,
        1, 2, 3, 4, 5, 6, 7, 8, // rbid
        0x43, 0x89, 0x5E, 0x89, // class_hash
        (-12i8) as u8,          // tx_power
        0x39, 0x30,             // anti_collision LE
        0, 0, 0, 0, 0, 0,       // reserved
    ];
    let ad = reconstruct_ad(&payload);
    let b = parse_legacy_beacon(&ad).expect("parse");
    assert!(b.flags.provisioning);
    assert_eq!(b.anti_collision, 12345);
}

#[test]
fn flags_round_trip() {
    let raw = 0b0010_1000; // provisioning + mobile
    let f = BeaconFlags::decode(raw);
    assert!(f.provisioning);
    assert!(f.mobile);
    assert!(!f.mcu_mode);
    assert_eq!(f.encode(), raw);
}

#[test]
fn flags_drop_reserved_bits_on_round_trip() {
    for raw in 0u16..=255 {
        let raw = raw as u8;
        assert_eq!(BeaconFlags::decode(raw).encode(), raw & 0xF8);
    }
}

#[test]
fn reconstruct_pads_short_payloads() {
    let ad = reconstruct_ad(&[R2_BEACON_MAGIC, BEACON_VERSION]);
    assert_eq!(&ad[..6], &[0x1B, 0xFF, 0xFF, 0xFF, R2_BEACON_MAGIC, BEACON_VERSION]);
    assert!(ad[6..].iter().all(|b| *b == 0));
}

#[test]
fn fingerprint_stable_across_calls() {
    let flags = BeaconFlags::decode(0b0010_0000);
    let rbid = [1, 2, 3, 4, 5, 6, 7, 8];
    let ch = [0x43, 0x89, 0x5E, 0x89];
    let ac = 12345;
    assert_eq!(fingerprint(&flags, &rbid, &ch, ac), fingerprint(&flags, &rbid, &ch, ac));
}

#[test]
fn fingerprint_changes_on_flags_change() {
    let rbid = [0u8; 8];
    let ch = [0u8; 4];
    let f1 = BeaconFlags::decode(0b0010_0000); // provisioning
    let f2 = BeaconFlags::decode(0b0000_0000); // un-provisioning (enrolled now)
    assert_ne!(fingerprint(&f1, &rbid, &ch, 0), fingerprint(&f2, &rbid, &ch, 0));
}

#[test]
fn iso8601_utc_format() {
    let s = iso8601_utc(1_780_704_000); // 2026-06-04
    assert_eq!(s.len(), 20, "RFC3339 shape");
    assert!(s.ends_with("Z"));
    assert!(s.starts_with("2026-"));
}

#[test]
fn iso8601_exact_values() {
    assert_eq!(iso8601_utc(0), "1970-01-01T00:00:00Z");
    assert_eq!(iso8601_utc(1_780_704_000), "2026-06-06T00:00:00Z");
    assert_eq!(format_iso8601(951_782_400), "2000-02-29T00:00:00Z");
    assert_eq!(format_iso8601(1_700_000_000), "2023-11-14T22:13:20Z");
    assert_eq!(iso8601_utc(1_700_000_000), format_iso8601(1_700_000_000));
}

#[test]
fn calendar_edges() {
    assert_eq!(days_to_ymd(-1), (1970, 1, 0));
    assert_eq!(days_to_ymd(-3), (1970, 1, u32::MAX - 1));
    assert_eq!(civil_from_days(MAX_YMD_DAYS), (i32::MAX as i64, 12, 31));
    assert_eq!(format_iso8601(MAX_ISO_SECS), "2147483647-12-31T23:59:59Z");
    assert_eq!(iso8601_utc(86_399), "1970-01-01T23:59:59Z");
    let (y, m, d) = civil_from_days(CIVIL_DAYS_MAX);
    assert!(y > 25_000_000_000_000_000 && (1..=12).contains(&m) && (1..=31).contains(&d));
    assert_eq!(civil_from_days(-719_468), (0, 3, 1));
    let (_, m2, d2) = civil_from_days(i64::MIN);
    assert!((1..=12).contains(&m2) && (1..=31).contains(&d2));
}

#[test]
fn calendar_algorithms_agree() {
    assert_eq!(civil_from_days(0), (1970, 1, 1));
    assert_eq!(civil_from_days(-1), (1969, 12, 31));
    assert_eq!(civil_from_days(11_016), (2000, 2, 29));
    for days in [0i64, 59, 365, 10_957, 11_016, 19_723, 20_610, 100_000] {
        let (y, m, d) = civil_from_days(days);
        let (y2, m2, d2) = days_to_ymd(days);
        assert_eq!((y, m, d), (y2 as i64, m2, d2));
    }
}

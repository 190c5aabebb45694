use std::collections::{BTreeMap, HashMap};

use sha2::{Digest, Sha256};

use r2_composer::apiary::{
    infer_target_type, materialise, materialise_role, sort_newest_first, summary_of, TomlApiary,
    TomlApiaryHeader, TomlApiaryTg, TomlRoleEnsemble, TomlTarget,
};
use r2_composer::bridge::{known_events, registry};
use r2_composer::flasher::{
    build_esptool_args, classify_esptool_line, exit_event, plan_start, push_stderr_line,
    FlashEvent, FlashParams, FlashRegion, ERR_BUSY, ERR_NO_PARAMS, ERR_TOOL_BANNED,
};
use r2_composer::fnv::{class_hash_hex, fnv1a_32, verify_class_hash};
use r2_composer::ota::{ack_len, ack_outcome, classify_device_error, ota_preamble, send_percent, AckOutcome};
use r2_composer::usb::{
    classify, is_serial_tty, lookup_key, parse_sysfs_hex, port_diff, GuessConfidence, UsbPort,
    UsbPortRaw,
};

fn lookup_with(entries: &[((u16, u16), Vec<&str>)]) -> HashMap<u32, Vec<String>> {
    let mut m = HashMap::new();
    for ((v, p), slugs) in entries {
        m.insert(lookup_key(*v, *p), slugs.iter().map(|s| s.to_string()).collect());
    }
    m
}

fn raw(port: &str, vid: u16, pid: u16) -> UsbPortRaw {
    UsbPortRaw { port: port.into(), vid, pid, serial: None, sysfs_path: format!("/sys/devices/test/{port}") }
}

#[test]
fn classify_unknown_when_no_match() {
    let lk = lookup_with(&[]);
    let p = classify(raw("/dev/ttyACM0", 0x1234, 0x5678), &lk);
    assert_eq!(p.carrier_guess, None);
    assert_eq!(p.guess_confidence, GuessConfidence::Unknown);
    assert!(p.candidates.is_empty());
}

#[test]
fn classify_vid_pid_when_single_match() {
    let lk = lookup_with(&[((0x303a, 0x1001), vec!["esp32-s3-xiao"])]);
    let p = classify(raw("/dev/ttyACM0", 0x303a, 0x1001), &lk);
    assert_eq!(p.carrier_guess.as_deref(), Some("esp32-s3-xiao"));
    assert_eq!(p.guess_confidence, GuessConfidence::VidPid);
}

#[test]
fn classify_ambiguous_when_multiple_matches() {
    // ESP32-S3 + ESP32-C6 native USB-Serial-JTAG share VID/PID.
    let lk = lookup_with(&[((0x303a, 0x1001), vec!["esp32-s3-devkitc", "esp32-s3-xiao", "esp32-c6-dfr1117"])]);
    let p = classify(raw("/dev/ttyACM0", 0x303a, 0x1001), &lk);
    assert_eq!(p.carrier_guess, None);
    assert_eq!(p.guess_confidence, GuessConfidence::Ambiguous);
    assert_eq!(p.candidates.len(), 3);
}

#[test]
fn is_serial_tty_matches_acm_and_usb() {
    assert!(is_serial_tty("ttyACM0"));
    assert!(is_serial_tty("ttyACM12"));
    assert!(is_serial_tty("ttyUSB0"));
    assert!(!is_serial_tty("tty0"));
    assert!(!is_serial_tty("ttyS0"));
    assert!(!is_serial_tty("console"));
}

#[test]
fn sysfs_hex_parsing() {
    assert_eq!(parse_sysfs_hex("303a\n"), Some(0x303a));
    assert_eq!(parse_sysfs_hex("0x1001"), Some(0x1001));
    assert_eq!(parse_sysfs_hex("not-hex"), None);
    assert_eq!(parse_sysfs_hex(""), None);
    assert_eq!(parse_sysfs_hex("10000"), None);
}

fn port(name: &str) -> UsbPort {
    UsbPort {
        port: name.into(),
        vid: 1,
        pid: 2,
        serial: None,
        sysfs_path: String::new(),
        carrier_guess: None,
        guess_confidence: GuessConfidence::Unknown,
        candidates: Vec::new(),
    }
}

#[test]
fn scan_diff_reports_attach_and_detach() {
    let previous = vec![port("/dev/ttyACM0"), port("/dev/ttyUSB0")];
    let current = vec![port("/dev/ttyUSB0"), port("/dev/ttyACM1"), port("/dev/ttyACM2")];
    let d = port_diff(&previous, &current);
    assert_eq!(d.attached, vec![1, 2]);
    assert_eq!(d.detached, vec!["/dev/ttyACM0".to_string()]);
    let same = port_diff(&current, &current);
    assert!(same.attached.is_empty() && same.detached.is_empty());
}

fn params() -> FlashParams {
    FlashParams {
        slot_id: "x".into(),
        port: "/dev/ttyACM1".into(),
        chip_arg: "esp32c6".into(),
        baud: 460800,
        regions: vec![
            FlashRegion { offset: "0x0".into(), path: "/tmp/boot.bin".into() },
            FlashRegion { offset: "0x8000".into(), path: "/tmp/pt.bin".into() },
            FlashRegion { offset: "0x20000".into(), path: "/tmp/fw.bin".into() },
        ],
        firmware_sha256: None,
    }
}

#[test]
fn build_esptool_args_includes_all_regions() {
    let p = params();
    let args = build_esptool_args(&p);
    // Spot-check shape.
    assert!(args.iter().any(|a| a == "esp32c6"));
    assert!(args.iter().any(|a| a == "/dev/ttyACM1"));
    assert!(args.iter().any(|a| a == "write_flash"));
    assert!(args.iter().any(|a| a == "0x0"));
    assert!(args.iter().any(|a| a == "/tmp/boot.bin"));
    assert!(args.iter().any(|a| a == "0x8000"));
    assert!(args.iter().any(|a| a == "0x20000"));
}

#[test]
fn esptool_args_exact_order() {
    let args = build_esptool_args(&params());
    let want = [
        "--chip", "esp32c6", "--port", "/dev/ttyACM1", "--baud", "460800", "--before",
        "default_reset", "--after", "hard_reset", "write_flash", "0x0", "/tmp/boot.bin", "0x8000",
        "/tmp/pt.bin", "0x20000", "/tmp/fw.bin",
    ];
    assert_eq!(args, want.iter().map(|s| s.to_string()).collect::<Vec<_>>());
}

#[test]
fn classify_phases() {
    assert_eq!(classify_esptool_line("Connecting...."), "connecting");
    assert_eq!(classify_esptool_line("Writing at 0x00010000... (100 %)"), "writing");
    assert_eq!(classify_esptool_line("Compressed 17744 bytes to 11820"), "erasing");
    assert_eq!(classify_esptool_line("Wrote 17744 bytes"), "verifying");
    assert_eq!(classify_esptool_line("Hash of data verified."), "verified");
    assert_eq!(classify_esptool_line("Hard resetting via RTS pin..."), "resetting");
    assert_eq!(classify_esptool_line("Random output"), "other");
}

#[test]
fn flash_start_decisions() {
    let p = params();
    assert_eq!(plan_start(true, Some(&p), "esptool", None).unwrap_err().code, ERR_BUSY);
    assert_eq!(plan_start(false, None, "esptool", None).unwrap_err().code, ERR_NO_PARAMS);
    assert_eq!(plan_start(false, Some(&p), "/usr/bin/espflash", None).unwrap_err().code, ERR_TOOL_BANNED);
    assert_eq!(plan_start(false, Some(&p), "esptool", None).unwrap(), build_esptool_args(&p));
    let over = vec!["-c".to_string(), "true".to_string()];
    assert_eq!(plan_start(false, Some(&p), "sh", Some(&over)).unwrap(), over);
    assert_eq!(plan_start(true, None, "espflash", None).unwrap_err().message, "flasher session already running");
    assert_eq!(
        plan_start(false, None, "esptool", None).unwrap_err().message,
        "no FlashParams in slot \u{2014} Deploy sentant must fill before firing CMD_START"
    );
    assert_eq!(
        plan_start(false, Some(&p), "espflash", None).unwrap_err().message,
        "espflash is banned; use esptool"
    );
}

#[test]
fn flash_exit_events_and_stderr_tail() {
    match exit_event(0, "/dev/ttyACM0", "s", &Some("ab12".to_string()), "") {
        FlashEvent::Done { exit_code, port, slot_id, artefact_sha256 } => {
            assert_eq!((exit_code, port.as_str(), slot_id.as_str()), (0, "/dev/ttyACM0", "s"));
            assert_eq!(artefact_sha256.as_deref(), Some("ab12"));
        }
        other => panic!("{other:?}"),
    }
    match exit_event(0, "/dev/ttyACM0", "s", &None, "") {
        FlashEvent::Done { artefact_sha256, .. } => assert!(artefact_sha256.is_none()),
        other => panic!("{other:?}"),
    }
    match exit_event(5, "p", "s", &None, "boom") {
        FlashEvent::Error { message, exit_code, stderr_tail, .. } => {
            assert_eq!(message, "esptool exited with code 5");
            assert_eq!(exit_code, 5);
            assert_eq!(stderr_tail, "boom");
        }
        other => panic!("{other:?}"),
    }
    let mut tail = Vec::new();
    for i in 0..40 {
        push_stderr_line(&mut tail, format!("l{i}"));
    }
    assert_eq!(tail.len(), 32);
    assert_eq!(tail[0], "l8");
    assert_eq!(tail[31], "l39");
}

#[test]
fn target_type_inference() {
    assert_eq!(infer_target_type("esp32-s3-devkitc"), "mcu-fw");
    assert_eq!(infer_target_type("nrf52840-dk"), "mcu-fw");
    assert_eq!(infer_target_type("rp2040-pico"), "mcu-fw");
    assert_eq!(infer_target_type("wasm32-browser"), "wasm");
    assert_eq!(infer_target_type("linux-x86_64"), "native");
    assert_eq!(infer_target_type("darwin-arm64"), "native");
}

#[test]
fn parses_full_form_with_overrides_and_coloc() {
    let mut overrides = BTreeMap::new();
    overrides.insert("ai.reality2.cap.accel.triaxial".to_string(), "lis2dh".to_string());
    let file = TomlApiary {
        apiary: TomlApiaryHeader {
            name: "rocker-rig".into(),
            description: String::new(),
            class: "nz.ac.auckland.rocker".into(),
            version: "0.2.0".into(),
        },
        tg: Some(TomlApiaryTg { keyholder_fp: "ab12cd34".into() }),
        role_ensembles: vec![
            TomlRoleEnsemble {
                role: "sensor".into(),
                ensemble: "rocker-sensor".into(),
                carriers: vec![],
                targets: vec![TomlTarget {
                    target_type: Some("mcu-fw".into()),
                    host: "esp32-c6-dfr1117".into(),
                    plugin_overrides: overrides,
                    co_located_with: None,
                }],
            },
            TomlRoleEnsemble {
                role: "webapp-server".into(),
                ensemble: "rocker-webapp-server".into(),
                carriers: vec![],
                targets: vec![TomlTarget {
                    target_type: Some("beam".into()),
                    host: "linux-x86_64".into(),
                    plugin_overrides: BTreeMap::new(),
                    co_located_with: Some("controller".into()),
                }],
            },
        ],
    };
    let st = materialise(file);
    assert_eq!(st.name, "rocker-rig");
    assert_eq!(st.class, "nz.ac.auckland.rocker");
    assert_eq!(st.class_hash, "0x624c47bc");
    assert_eq!(st.tg.keyholder_fp, "ab12cd34");
    assert_eq!(st.roles.len(), 2);

    let sensor = &st.roles[0];
    assert_eq!(sensor.role, "sensor");
    assert_eq!(sensor.targets.len(), 1);
    let t = &sensor.targets[0];
    assert_eq!(t.id, "sensor:esp32-c6-dfr1117");
    assert_eq!(t.target_type, "mcu-fw");
    assert_eq!(t.overrides.get("ai.reality2.cap.accel.triaxial").map(|s| s.as_str()), Some("lis2dh"));
    assert!(t.co_located_with.is_none());

    let webapp = &st.roles[1];
    assert_eq!(webapp.targets[0].target_type, "beam");
    assert_eq!(webapp.targets[0].co_located_with.as_deref(), Some("controller"));
}

#[test]
fn expands_simple_carriers_shorthand() {
    let file = TomlApiary {
        apiary: TomlApiaryHeader {
            name: "demo".into(),
            description: String::new(),
            class: "ai.reality2.demo".into(),
            version: String::new(),
        },
        tg: None,
        role_ensembles: vec![TomlRoleEnsemble {
            role: "sensor".into(),
            ensemble: "rocker-sensor".into(),
            carriers: vec!["esp32-s3-devkitc".into(), "esp32-s3-xiao".into(), "esp32-c6-dfr1117".into()],
            targets: vec![],
        }],
    };
    let st = materialise(file);
    let sensor = &st.roles[0];
    assert_eq!(sensor.targets.len(), 3);
    for t in &sensor.targets {
        assert_eq!(t.target_type, "mcu-fw");
        assert!(t.overrides.is_empty());
    }
    assert_eq!(sensor.targets[2].id, "sensor:esp32-c6-dfr1117");
}

#[test]
fn materialise_role_one_target_per_carrier() {
    let role = materialise_role(TomlRoleEnsemble {
        role: "sensor".into(),
        ensemble: "rocker-sensor".into(),
        carriers: vec!["esp32-s3-devkitc".into(), "wasm32-browser".into()],
        targets: vec![],
    });
    assert_eq!(role.targets.len(), 2);
    assert_eq!(role.targets[0].id, "sensor:esp32-s3-devkitc");
    assert_eq!(role.targets[1].target_type, "wasm");
    assert_eq!(role.targets[1].host, "wasm32-browser");
}

fn header(name: &str) -> TomlApiaryHeader {
    TomlApiaryHeader {
        name: name.into(),
        description: String::new(),
        class: "nz.ac.auckland.rocker".into(),
        version: "0.1.0".into(),
    }
}

#[test]
fn summaries_sort_newest_first_keeping_ties() {
    let a = summary_of(&header("a"), "/x/a", "2026-01-02T00:00:00Z");
    assert_eq!(a.class_hash, "0x624c47bc");
    assert_eq!(a.path, "/x/a");
    let b = summary_of(&header("b"), "/x/b", "2026-03-01T00:00:00Z");
    let c = summary_of(&header("c"), "/x/c", "2026-01-02T00:00:00Z");
    let d = summary_of(&header("d"), "/x/d", "");
    let sorted = sort_newest_first(vec![d, a, b, c]);
    let names: Vec<&str> = sorted.iter().map(|s| s.name.as_str()).collect();
    assert_eq!(names, vec!["b", "a", "c", "d"]);
}

#[test]
fn classify_device_error_vocabulary() {
    assert_eq!(classify_device_error("SHA_MISMATCH x"), "sha-mismatch");
    assert_eq!(classify_device_error("TOO_BIG 1500000>1500000"), "too-big");
    assert_eq!(classify_device_error("BAD_MAGIC"), "bad-magic");
    assert_eq!(classify_device_error("WRITE_FAIL errno=5"), "write-fail");
    assert_eq!(classify_device_error("NO_SLOT"), "no-slot");
    assert_eq!(classify_device_error("PREAMBLE short read"), "preamble");
    assert_eq!(classify_device_error("SHORT"), "short");
    assert_eq!(classify_device_error("weird"), "device-error");
    assert_eq!(classify_device_error(""), "device-error");
}

#[test]
fn ota_wire_pieces() {
    let fw: Vec<u8> = (0..5000u32).map(|i| (i % 251) as u8).collect();
    let (pre, digest) = ota_preamble(&fw);
    assert_eq!(pre.len(), 37);
    assert_eq!(pre[0], 0x01);
    assert_eq!(u32::from_le_bytes([pre[1], pre[2], pre[3], pre[4]]), 5000);
    assert_eq!(&pre[5..], Sha256::digest(&fw).as_slice());
    assert_eq!(&digest[..], Sha256::digest(&fw).as_slice());
    assert_eq!(send_percent(0, 0), 100);
    assert_eq!(send_percent(50, 200), 25);
    assert_eq!(send_percent(200, 200), 100);
    assert_eq!(ack_len([0x02, 0x01]), 258);
    assert!(matches!(ack_outcome(0, b"OK"), AckOutcome::Accepted));
    match ack_outcome(1, b"  SHA_MISMATCH computed!=preamble") {
        AckOutcome::Refused { error_kind, message } => {
            assert_eq!(error_kind, "sha-mismatch");
            assert_eq!(message, "  SHA_MISMATCH computed!=preamble");
        }
        _ => panic!(),
    }
}

const ROCKER_CLASS: &str = "nz.ac.auckland.rocker";
const ROCKER_HASH: u32 = 0x624c47bc;

#[test]
fn rocker_class_hash_matches_spec() {
    assert_eq!(fnv1a_32(ROCKER_CLASS), ROCKER_HASH);
}

#[test]
fn class_hash_hex_formats_consistently() {
    assert_eq!(class_hash_hex(ROCKER_CLASS), "0x624c47bc");
    // Empty string is a documented edge case — FNV-1a's offset basis.
    assert_eq!(class_hash_hex(""), "0x811c9dc5");
}

#[test]
fn verify_class_hash_accepts_both_hex_forms() {
    assert!(verify_class_hash(ROCKER_CLASS, "0x624c47bc"));
    assert!(verify_class_hash(ROCKER_CLASS, "624C47BC"));
    assert!(verify_class_hash(ROCKER_CLASS, "0X624C47BC"));
    assert!(verify_class_hash(ROCKER_CLASS, "  624c47bc  "));
}

#[test]
fn verify_class_hash_rejects_mismatch_or_bad_hex() {
    assert!(!verify_class_hash(ROCKER_CLASS, "0xdeadbeef"));
    assert!(!verify_class_hash(ROCKER_CLASS, "not-hex"));
    assert!(!verify_class_hash(ROCKER_CLASS, ""));
}

#[test]
fn known_events_round_trip_by_name() {
    let reg = registry();
    for name in known_events() {
        let h = reg.hash_of(name).expect("known name has a hash");
        assert_eq!(reg.name_of(h), Some(name));
    }
}

#[test]
fn unknown_event_name_still_hashes() {
    let reg = registry();
    let h = reg.hash_of("r2.composer.unknown.future-event").unwrap();
    assert_eq!(h, fnv1a_32("r2.composer.unknown.future-event"));
    assert!(reg.name_of(h).is_none());
    assert_eq!(reg.display_name(h), format!("0x{h:08x}"));
    assert_eq!(reg.display_name(fnv1a_32("r2.composer.build.start")), "r2.composer.build.start");
}

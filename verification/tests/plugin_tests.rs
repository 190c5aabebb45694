use ed25519_dalek::SigningKey;
use sha2::{Digest, Sha256};

use r2_composer::beacon::BeaconObservation;
use r2_composer::beacon_tracker::{BeaconTracker, LOST_AFTER_MS};
use r2_composer::claude_code::{
    chunk_text, command_step, exit_message, extract_text_content, hashes, line_messages, message_event,
    parse_kind, pick_brief, ContentItem, SessionStep, StreamLine, WorkerMsg, CMD_START as SESSION_START,
    ERR_BUSY as SESSION_BUSY, ERR_UNKNOWN_COMMAND as SESSION_UNKNOWN,
};
use r2_composer::flasher::{
    exit_event, flasher_command, plan_start, progress_event, FlashEvent, FlashParams, FlashRegion,
    FlasherCommand, ERR_NO_PARAMS as FLASH_NO_PARAMS, ERR_TOOL_BANNED, ERR_UNKNOWN_COMMAND as FLASH_UNKNOWN,
};
use r2_composer::fnv::fnv1a_32;
use r2_composer::keyholder::{
    keyholder_step, load_key_material, KeyholderAction, CMD_FINGERPRINT, ERR_KEY_LOAD_FAILED, ERR_NO_APIARY,
    ERR_UNKNOWN_COMMAND as KEY_UNKNOWN,
};
use r2_composer::ota::{
    ack_outcome, after_chunk, ota_preamble, push_command_step, AckOutcome, PushStep, CMD_START as OTA_START,
    ERR_BUSY as OTA_BUSY, ERR_NO_PARAMS as OTA_NO_PARAMS, ERR_UNKNOWN_COMMAND as OTA_UNKNOWN, WIRE_CMD_START,
};
use r2_composer::tg_state::{
    decode_tg_state, encode_tg_state, state_path, LoadError, TgMember, TgStateFile,
};
use r2_composer::usb::parse_sysfs_hex;

// ── assistant session ─────────────────────────────────────────────────

#[test]
fn claude_code_unknown_command_errors() {
    match command_step(0xAA, false) {
        SessionStep::Refuse { code, .. } => assert_eq!(code, SESSION_UNKNOWN),
        other => panic!("expected ERR_UNKNOWN_COMMAND, got {other:?}"),
    }
}

#[test]
fn echo_fixture_round_trips_to_progress_then_done() {
    // {"type":"system","subtype":"init"} and {"type":"assistant","message":"hello"}:
    // neither carries a content array, so both are meta lines.
    let system = StreamLine { kind: Some("system".into()), content: None };
    let assistant = StreamLine { kind: Some("assistant".into()), content: None };
    let mut msgs = line_messages(Some(&system));
    msgs.extend(line_messages(Some(&assistant)));
    msgs.push(exit_message("sh", Some(0)));
    let (progress, done, _err) = hashes();
    let prog_count = msgs.iter().filter(|m| message_event(m).0 == progress).count();
    let done_count = msgs.iter().filter(|m| message_event(m).0 == done).count();
    assert!(prog_count >= 2, "expected >=2 progress events, got {prog_count}: {msgs:?}");
    assert_eq!(done_count, 1, "expected 1 done event");
    match &msgs[0] {
        WorkerMsg::Meta { kind } => assert_eq!(kind, "system"),
        other => panic!("expected Meta, got {other:?}"),
    }
}

#[test]
fn claude_code_nonzero_exit_yields_error_event() {
    let m = exit_message("sh", Some(3));
    let (_, _, err) = hashes();
    assert_eq!(message_event(&m), (err, true));
    match m {
        WorkerMsg::Error { exit_code, message } => {
            assert_eq!(exit_code, 3);
            assert_eq!(message, "sh exited with code 3");
        }
        other => panic!("expected Error, got {other:?}"),
    }
    match exit_message("sh", None) {
        WorkerMsg::Error { exit_code, .. } => assert_eq!(exit_code, -1),
        other => panic!("expected Error, got {other:?}"),
    }
}

#[test]
fn cannot_start_twice() {
    assert!(matches!(command_step(SESSION_START, false), SessionStep::Start));
    match command_step(SESSION_START, true) {
        SessionStep::Refuse { code, message } => {
            assert_eq!(code, SESSION_BUSY);
            assert_eq!(message, "session already running");
        }
        other => panic!("expected ERR_BUSY for double-start, got {other:?}"),
    }
}

#[test]
fn assistant_text_is_joined_and_chunked() {
    let line = StreamLine {
        kind: Some("assistant".into()),
        content: Some(vec![
            ContentItem { kind: Some("text".into()), text: Some("hello ".into()) },
            ContentItem { kind: Some("tool_use".into()), text: Some("ignored".into()) },
            ContentItem { kind: Some("text".into()), text: Some("world".into()) },
        ]),
    };
    assert_eq!(parse_kind(Some(&line)), "assistant");
    assert_eq!(extract_text_content(Some(&line)).as_deref(), Some("hello world"));
    let msgs = line_messages(Some(&line));
    assert_eq!(msgs.len(), 1);
    assert!(matches!(&msgs[0], WorkerMsg::Text { kind, chunk } if kind == "assistant" && chunk == "hello world"));
    assert_eq!(parse_kind(None), "unknown");
    let result = StreamLine { kind: Some("result".into()), content: Some(vec![]) };
    assert!(extract_text_content(Some(&result)).is_none());
}

#[test]
fn chunks_respect_the_byte_budget_and_characters() {
    assert_eq!(chunk_text("abcdefg", 3), vec!["abc", "def", "g"]);
    // 'é' is two bytes: never split.
    assert_eq!(chunk_text("aéé", 2), vec!["a", "é", "é"]);
    assert_eq!(chunk_text("", 5), Vec::<String>::new());
    // A character wider than the budget stops the cutting.
    assert_eq!(chunk_text("a€b", 2), vec!["a"]);
    let long = "x".repeat(400);
    let chunks = chunk_text(&long, 150);
    assert_eq!(chunks.iter().map(|c| c.len()).collect::<Vec<_>>(), vec![150, 150, 100]);
    assert_eq!(chunks.concat(), long);
}

#[test]
fn brief_comes_from_the_slot_first() {
    assert_eq!(pick_brief(Some("long brief".into()), b"data"), b"long brief".to_vec());
    assert_eq!(pick_brief(None, b"data"), b"data".to_vec());
}

// ── flasher ─────────────────────────────────────────────────────────

fn make_params() -> FlashParams {
    FlashParams {
        slot_id: "sensor:esp32-s3-xiao:8c1e3aaf".into(),
        port: "/dev/ttyACM0".into(),
        chip_arg: "esp32s3".into(),
        baud: 460800,
        regions: vec![FlashRegion { offset: "0x20000".into(), path: "/tmp/fw.bin".into() }],
        firmware_sha256: None,
    }
}

#[test]
fn flasher_unknown_command_errors() {
    match flasher_command(0xAA) {
        FlasherCommand::Refuse(e) => assert_eq!(e.code, FLASH_UNKNOWN),
        other => panic!("expected a refusal, got {other:?}"),
    }
}

#[test]
fn flasher_missing_params_errors() {
    match plan_start(false, None, "esptool", None) {
        Err(e) => assert_eq!(e.code, FLASH_NO_PARAMS),
        Ok(a) => panic!("expected ERR_NO_PARAMS, got {a:?}"),
    }
}

#[test]
fn espflash_program_refused() {
    let p = make_params();
    let args = vec!["--chip".to_string(), "esp32s3".to_string()];
    match plan_start(false, Some(&p), "espflash", Some(&args)) {
        Err(e) => assert_eq!(e.code, ERR_TOOL_BANNED),
        Ok(a) => panic!("expected ERR_TOOL_BANNED, got {a:?}"),
    }
}

#[test]
fn fixture_round_trips_to_progress_then_done() {
    let lines = [
        "esptool.py v4.7.0",
        "Connecting....",
        "Chip is ESP32-S3",
        "Compressed 17744 bytes to 11820",
        "Writing at 0x00010000... (100 %)",
        "Wrote 17744 bytes",
        "Hash of data verified.",
        "Hard resetting via RTS pin...",
    ];
    let events: Vec<FlashEvent> = lines.iter().map(|l| progress_event(l)).collect();
    assert!(events.len() >= 6);
    assert!(events.iter().any(|e| matches!(e, FlashEvent::Progress { phase, .. } if phase == "writing")));
    let p = make_params();
    match exit_event(0, &p.port, &p.slot_id, &p.firmware_sha256, "") {
        FlashEvent::Done { exit_code, port, slot_id, artefact_sha256 } => {
            assert_eq!(port, "/dev/ttyACM0");
            assert_eq!(exit_code, 0);
            assert_eq!(slot_id, "sensor:esp32-s3-xiao:8c1e3aaf");
            assert_eq!(artefact_sha256, p.firmware_sha256);
        }
        other => panic!("expected Done, got {other:?}"),
    }
}

#[test]
fn flasher_nonzero_exit_yields_error_event() {
    match exit_event(5, "/dev/ttyACM0", "s", &None, "pretend connection refused\n") {
        FlashEvent::Error { exit_code, stderr_tail, message, .. } => {
            assert_eq!(exit_code, 5);
            assert!(stderr_tail.contains("connection refused"));
            assert_eq!(message, "esptool exited with code 5");
        }
        other => panic!("expected Error, got {other:?}"),
    }
}

// ── OTA push ────────────────────────────────────────────────────────

#[test]
fn ota_push_unknown_command_errors() {
    match push_command_step(0xAA, false, true) {
        PushStep::Refuse { code, .. } => assert_eq!(code, OTA_UNKNOWN),
        other => panic!("expected a refusal, got {other:?}"),
    }
}

#[test]
fn ota_push_missing_params_errors() {
    match push_command_step(OTA_START, false, false) {
        PushStep::Refuse { code, .. } => assert_eq!(code, OTA_NO_PARAMS),
        other => panic!("expected a refusal, got {other:?}"),
    }
}

#[test]
fn busy_when_session_running() {
    assert!(matches!(push_command_step(OTA_START, false, true), PushStep::Start));
    match push_command_step(OTA_START, true, true) {
        PushStep::Refuse { code, message } => {
            assert_eq!(code, OTA_BUSY);
            assert_eq!(message, "ota_push session already running");
        }
        other => panic!("expected ERR_BUSY, got {other:?}"),
    }
}

#[test]
fn wire_request_is_byte_exact() {
    let fw_bytes: Vec<u8> = (0..5000u32).map(|i| (i % 251) as u8).collect();
    let (preamble, digest) = ota_preamble(&fw_bytes);
    assert_eq!(preamble[0], WIRE_CMD_START, "command byte");
    let size = u32::from_le_bytes([preamble[1], preamble[2], preamble[3], preamble[4]]);
    assert_eq!(size as usize, fw_bytes.len(), "size is u32 LE of firmware len");
    assert_eq!(&preamble[5..37], Sha256::digest(&fw_bytes).as_slice(), "sha256 is 32 raw bytes");
    assert_eq!(digest.as_slice(), Sha256::digest(&fw_bytes).as_slice());
    assert_eq!(preamble.len(), 37, "the body follows the 37-byte preamble");
}

#[test]
fn device_error_code_maps_to_kind() {
    match ack_outcome(0x01, b"SHA_MISMATCH computed!=preamble") {
        AckOutcome::Refused { error_kind, message } => {
            assert_eq!(error_kind, "sha-mismatch");
            assert_eq!(message, "SHA_MISMATCH computed!=preamble");
        }
        other => panic!("expected Refused, got {other:?}"),
    }
    assert!(matches!(ack_outcome(0x00, b"OK"), AckOutcome::Accepted));
}

#[test]
fn sending_progress_is_throttled_to_whole_percents() {
    let total: u64 = 100_000;
    let mut sent = 0u64;
    let mut last = u8::MAX;
    let mut reports = Vec::new();
    while sent < total {
        let chunk = std::cmp::min(32768, total - sent);
        let (now, pct) = after_chunk(sent, chunk, total, last);
        if let Some(p) = pct {
            last = p;
            reports.push(p);
        }
        sent = now;
    }
    assert_eq!(reports, vec![32, 65, 98, 100]);
    assert_eq!(after_chunk(0, 0, 0, u8::MAX), (0, Some(100)));
    assert_eq!(after_chunk(0, 0, 0, 100), (0, None));
}

// ── key holder ──────────────────────────────────────────────────────

#[test]
fn fingerprint_loads_real_key() {
    let signing = SigningKey::from_bytes(&[0xAB; 32]);
    let pub_bytes = signing.verifying_key().to_bytes();
    let k = load_key_material(&[0xAB; 32], Some(&pub_bytes), "priv", "pub").expect("key loads");
    assert_eq!(k.public, pub_bytes);
    let fp = k.fingerprint.clone();
    assert_eq!(fp.len(), 64);
    assert!(fp.chars().all(|c| c.is_ascii_hexdigit()));
    assert_eq!(fp, hex::encode(Sha256::digest(pub_bytes)));
    match keyholder_step(CMD_FINGERPRINT, true, Some(&k)) {
        KeyholderAction::Reply(body) => {
            let v: serde_json::Value = serde_json::from_slice(&body).unwrap();
            assert_eq!(v["fp"].as_str().unwrap(), fp);
        }
        other => panic!("fp failed: {other:?}"),
    }
}

#[test]
fn no_apiary_errors() {
    match keyholder_step(CMD_FINGERPRINT, false, None) {
        KeyholderAction::Fail(e) => assert_eq!(e.code, ERR_NO_APIARY),
        other => panic!("expected ERR_NO_APIARY, got {other:?}"),
    }
    assert!(matches!(keyholder_step(CMD_FINGERPRINT, true, None), KeyholderAction::LoadKey));
}

#[test]
fn keyholder_unknown_command_errors() {
    match keyholder_step(0xAA, false, None) {
        KeyholderAction::Fail(e) => assert_eq!(e.code, KEY_UNKNOWN),
        other => panic!("expected ERR_UNKNOWN_COMMAND, got {other:?}"),
    }
}

#[test]
fn key_material_checks_length_and_the_public_key() {
    let e = load_key_material(&[1; 31], None, "p", "q").unwrap_err();
    assert_eq!(e.code, ERR_KEY_LOAD_FAILED);
    assert_eq!(e.message, "expected 32-byte Ed25519 seed, got 31");
    let e = load_key_material(&[1; 32], Some(&[0; 32]), "/a/tg_priv.bin", "/b/tg_pub.bin").unwrap_err();
    assert_eq!(
        e.message,
        "tg_pub.bin in-tree disagrees with derived pub key \u{2014} priv_path=/a/tg_priv.bin pub_path=/b/tg_pub.bin"
    );
    let k = load_key_material(&[1; 32], None, "p", "q").unwrap();
    assert_eq!(k.public, SigningKey::from_bytes(&[1; 32]).verifying_key().to_bytes());
}

// ── trust-group state file ─────────────────────────────────────────

fn empty_state() -> TgStateFile {
    TgStateFile { min_crypto_level: 1, sequence: 7, self_cert: vec![0x5A; 147], members: vec![], revocations: vec![] }
}

#[test]
fn save_and_load_empty_tg_round_trips() {
    let s = empty_state();
    let bytes = encode_tg_state(&s).unwrap();
    assert_eq!(bytes.len(), 4 + 1 + 1 + 4 + 147 + 2 + 2);
    let loaded = decode_tg_state(&bytes).expect("decodes");
    assert_eq!(loaded.sequence, s.sequence);
    assert_eq!(loaded.self_cert, s.self_cert);
    assert_eq!(loaded.members.len(), 0);
}

#[test]
fn bad_magic_is_rejected() {
    assert_eq!(decode_tg_state(b"XXXXfake-state").unwrap_err(), LoadError::BadMagic);
    assert_eq!(LoadError::BadMagic.message(), "bad magic \u{2014} not an R2 TG state file");
}

#[test]
fn round_trips_with_a_member() {
    let mut s = empty_state();
    s.members.push(TgMember { name: "test-device".into(), cert: vec![0x11; 147] });
    s.revocations.push(vec![0x22; 107]);
    s.sequence = 8;
    let bytes = encode_tg_state(&s).unwrap();
    let loaded = decode_tg_state(&bytes).expect("decodes");
    assert_eq!(loaded.members.len(), 1);
    assert_eq!(loaded.members[0].name, "test-device");
    assert_eq!(loaded.members[0].cert, vec![0x11; 147]);
    assert_eq!(loaded.revocations, vec![vec![0x22; 107]]);
    assert_eq!(loaded.sequence, s.sequence);
}

#[test]
fn state_file_errors() {
    let s = empty_state();
    let bytes = encode_tg_state(&s).unwrap();
    let mut v = bytes.clone();
    v[4] = 0x02;
    assert_eq!(decode_tg_state(&v).unwrap_err(), LoadError::UnknownVersion(2));
    assert_eq!(LoadError::UnknownVersion(2).message(), "unknown state version 0x02");
    assert_eq!(decode_tg_state(&bytes[..100]).unwrap_err(), LoadError::Truncated);
    assert_eq!(decode_tg_state(b"R2T").unwrap_err(), LoadError::BadMagic);
    // A member name that is not UTF-8.
    let mut m = empty_state();
    m.members.push(TgMember { name: "ab".into(), cert: vec![0; 147] });
    let mut b = encode_tg_state(&m).unwrap();
    b[159 + 2] = 0xFF;
    assert_eq!(decode_tg_state(&b).unwrap_err(), LoadError::BadUtf8);
    // A name longer than its 16-bit length field cannot be written.
    let mut long = empty_state();
    long.members.push(TgMember { name: "n".repeat(70_000), cert: vec![0; 147] });
    assert_eq!(encode_tg_state(&long).unwrap_err(), "member name too long");
    assert_eq!(state_path("/apiaries/a"), "/apiaries/a/devices/tg_state.bin");
    assert_eq!(state_path("/apiaries/a/"), "/apiaries/a/devices/tg_state.bin");
}

// ── sysfs ids ───────────────────────────────────────────────────────

#[test]
fn read_hex_file_parses_sysfs_hex() {
    assert_eq!(parse_sysfs_hex("303a\n"), Some(0x303a));
}

#[test]
fn read_hex_file_handles_missing_or_bad() {
    assert_eq!(parse_sysfs_hex("not-hex"), None);
    assert_eq!(parse_sysfs_hex(""), None);
}

// ── beacon tracker ─────────────────────────────────────────────────

fn obs(addr: &str, rssi: i16, now: &str) -> BeaconObservation {
    BeaconObservation {
        ble_addr: addr.into(),
        rbid: "0011223344556677".into(),
        class_hash: "0x624C47BC".into(),
        provisioning: true,
        mcu_mode: false,
        mobile: false,
        tx_power_dbm: 4,
        rssi,
        anti_collision: 12345,
        first_seen: now.into(),
        last_seen: now.into(),
    }
}

#[test]
fn tracker_announces_new_and_changed_only() {
    let mut t = BeaconTracker::new();
    assert!(t.record(obs("A", -60, "t0"), 1, 0), "a new address is announced");
    assert!(!t.record(obs("A", -70, "t1"), 1, 5_000), "an RSSI change alone is not");
    assert!(t.record(obs("A", -70, "t2"), 2, 10_000), "a changed fingerprint is");
    assert_eq!(t.first_seen("A").as_deref(), Some("t2"));
    assert!(t.first_seen("B").is_none());
    assert_eq!(t.snapshot().len(), 1);
}

#[test]
fn tracker_loses_silent_addresses() {
    let mut t = BeaconTracker::new();
    t.record(obs("A", -60, "t0"), 1, 0);
    t.record(obs("B", -60, "t0"), 2, 0);
    // B was seen this round; A is silent but not for long enough.
    assert!(t.sweep(&["B".to_string()], LOST_AFTER_MS - 1, LOST_AFTER_MS).is_empty());
    let lost = t.sweep(&["B".to_string()], LOST_AFTER_MS, LOST_AFTER_MS);
    assert_eq!(lost.len(), 1);
    assert_eq!(lost[0].ble_addr, "A");
    let snap = t.snapshot();
    assert_eq!(snap.len(), 1);
    assert_eq!(snap[0].ble_addr, "B");
    // Lost once: the next sweep finds nothing more.
    assert!(t.sweep(&["B".to_string()], LOST_AFTER_MS, LOST_AFTER_MS).is_empty());
}

#[test]
fn event_names_hash_with_fnv() {
    assert_eq!(hashes().0, fnv1a_32("r2.composer.build.progress"));
}

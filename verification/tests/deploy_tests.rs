use r2_composer::deploy::{
    batch_id_from_nanos, board_toml_path, resolve_first_install, synth_batch_id, usb_config_from, BatchStart,
    BatchTarget, DeployEmit, DeploySentant, DeployStep, FirstInstallStart,
};
use r2_composer::fnv::fnv1a_32;
use r2_composer::roster::{new_placeholder, Roster};

const NOW: &str = "2026-06-01T00:00:00Z";

fn hn(name: &str) -> u32 {
    fnv1a_32(name)
}

fn roster_with(host: &str, state: &str) -> (Roster, String) {
    let mut r = Roster::default();
    let mut row = new_placeholder("sensor", "rocker-sensor", host, "kitchen", NOW);
    row.state = state.to_string();
    let slot_id = row.slot_id.clone();
    r.devices.push(row);
    (r, slot_id)
}

fn target(slot: &str, ip: &str, port: Option<u64>) -> BatchTarget {
    BatchTarget { slot_id: Some(slot.to_string()), ip: Some(ip.to_string()), port }
}

fn emits(step: DeployStep) -> Vec<DeployEmit> {
    match step {
        DeployStep::Emit(v) => v,
        other => panic!("expected emissions, got {other:?}"),
    }
}

#[test]
fn start_resolves_slot_and_fills_flasher_slot() {
    let (roster, slot_id) = roster_with("esp32-s3-test", "placeholder");
    let mut s = DeploySentant::new();
    assert!(matches!(
        s.handle_event(hn("r2.composer.deploy.first_install.start"), false, b"{}"),
        DeployStep::FirstInstall
    ));
    let p = FirstInstallStart {
        slot_id: Some(slot_id.clone()),
        port: Some("/dev/ttyACM0".to_string()),
        artefact_path: Some("/tmp/firmware.bin".to_string()),
    };
    let host = resolve_first_install(&p, Some(&roster)).expect("slot resolves");
    assert_eq!(host, "esp32-s3-test");
    let board = board_toml_path("/repo", &host);
    assert_eq!(board, "/repo/catalogue/boards/esp32-s3-test/board.toml");
    // The minimal board: esptool_chip_arg = "esp32s3", flash_offsets.ota_0 = 0x20000.
    let usb = usb_config_from(true, Some("esp32s3"), Some(0x20000));
    match s.start_flash(&p, &board, usb) {
        DeployEmit::FlashStart(params) => {
            assert_eq!(params.port, "/dev/ttyACM0");
            assert_eq!(params.chip_arg, "esp32s3");
            assert_eq!(params.slot_id, slot_id);
            assert_eq!(params.baud, 460800);
            assert_eq!(params.regions.len(), 1);
            assert_eq!(params.regions[0].offset, "0x20000");
            assert_eq!(params.regions[0].path, "/tmp/firmware.bin");
        }
        other => panic!("expected FlashStart, got {other:?}"),
    }
    assert_eq!(s.state(), 1);
}

#[test]
fn missing_slot_id_emits_error() {
    let roster = Roster::default();
    let p = FirstInstallStart { slot_id: None, port: None, artefact_path: None };
    match resolve_first_install(&p, Some(&roster)) {
        Err(DeployEmit::FirstInstallError { slot_id, port, message }) => {
            assert_eq!(slot_id, "");
            assert_eq!(port, "");
            assert_eq!(message, "first_install.start missing slot_id or port");
        }
        other => panic!("expected FirstInstallError, got {other:?}"),
    }
}

#[test]
fn unknown_slot_emits_error() {
    let roster = Roster::default();
    let p = FirstInstallStart {
        slot_id: Some("nonexistent".to_string()),
        port: Some("/dev/ttyACM0".to_string()),
        artefact_path: None,
    };
    match resolve_first_install(&p, Some(&roster)) {
        Err(DeployEmit::FirstInstallError { message, .. }) => {
            assert!(message.contains("E_SLOT_NOT_FOUND"));
            assert_eq!(message, "E_SLOT_NOT_FOUND: nonexistent");
        }
        other => panic!("expected FirstInstallError, got {other:?}"),
    }
}

#[test]
fn first_install_without_apiary_is_refused() {
    let p = FirstInstallStart {
        slot_id: Some("s".to_string()),
        port: Some("/dev/ttyACM0".to_string()),
        artefact_path: None,
    };
    match resolve_first_install(&p, None) {
        Err(DeployEmit::FirstInstallError { message, .. }) => {
            assert_eq!(message, "no apiary open \u{2014} first_install requires an active apiary");
        }
        other => panic!("expected FirstInstallError, got {other:?}"),
    }
}

#[test]
fn usb_config_errors_are_reported_with_the_board_path() {
    let (roster, slot_id) = roster_with("b", "placeholder");
    let p = FirstInstallStart {
        slot_id: Some(slot_id),
        port: Some("/dev/ttyACM0".to_string()),
        artefact_path: None,
    };
    assert!(resolve_first_install(&p, Some(&roster)).is_ok());
    let mut s = DeploySentant::new();
    let e = usb_config_from(false, None, None);
    assert_eq!(e.as_ref().unwrap_err(), "missing [usb] table");
    match s.start_flash(&p, "/r/board.toml", e) {
        DeployEmit::FirstInstallError { message, .. } => {
            assert_eq!(message, "E_USB_CONFIG: /r/board.toml (missing [usb] table)");
        }
        other => panic!("expected FirstInstallError, got {other:?}"),
    }
    assert_eq!(s.state(), 0);
    assert_eq!(
        usb_config_from(true, None, Some(1)).unwrap_err(),
        "[usb].esptool_chip_arg missing or not a string"
    );
    assert_eq!(
        usb_config_from(true, Some("esp32c6"), None).unwrap_err(),
        "[usb].flash_offsets.ota_0 missing or not an integer"
    );
    assert_eq!(usb_config_from(true, Some("x"), Some(0)).unwrap().ota_0_offset, "0x0");
    assert_eq!(usb_config_from(true, Some("x"), Some(-1)).unwrap().ota_0_offset, "0xffffffffffffffff");
}

#[test]
fn deploy_plugin_sourced_progress_rebroadcasts() {
    let mut s = DeploySentant::new();
    let hp = hn("r2.composer.deploy.first_install.progress");
    let out = emits(s.handle_event(hp, true, br#"{"phase":"writing","line":"x"}"#));
    assert_eq!(out.len(), 1);
    match &out[0] {
        DeployEmit::Rebroadcast { hash, payload } => {
            assert_eq!(*hash, hp);
            assert_eq!(payload.as_slice(), br#"{"phase":"writing","line":"x"}"#);
        }
        other => panic!("expected Rebroadcast, got {other:?}"),
    }
}

#[test]
fn deploy_locally_sourced_progress_does_not_rebroadcast() {
    let mut s = DeploySentant::new();
    let out = emits(s.handle_event(hn("r2.composer.deploy.first_install.progress"), false, b"{}"));
    assert!(out.is_empty(), "must not re-broadcast local emissions");
}

#[test]
fn batch_start_pushes_reachable_target() {
    let (roster, slot_id) = roster_with("esp32-s3-test", "reachable");
    let mut s = DeploySentant::new();
    assert!(matches!(s.handle_event(hn("r2.composer.deploy.batch.start"), false, b"{}"), DeployStep::Batch));
    let p = BatchStart {
        batch_id: Some("bX".to_string()),
        artefact_path: Some("/tmp/fw.bin".to_string()),
        targets: Some(vec![target(&slot_id, "192.168.1.42", None)]),
    };
    let out = s.batch_start(&p, Some(&roster), Some("/apiaries/a"));
    assert_eq!(out.len(), 1, "{out:?}");
    match &out[0] {
        DeployEmit::PushStart(params) => {
            assert_eq!(params.target_ip, "192.168.1.42");
            assert_eq!(params.port, 21043);
            assert_eq!(params.slot_id, slot_id);
            assert_eq!(params.batch_id, "bX");
            assert_eq!(params.firmware_path, "/tmp/fw.bin");
            assert_eq!(params.log_path.as_deref(), Some("/apiaries/a/devices/deploy_log.jsonl"));
        }
        other => panic!("expected PushStart, got {other:?}"),
    }
    assert_eq!(s.state(), 2);
    assert!(s.has_batch());
}

#[test]
fn batch_start_gates_unreachable_target() {
    let (roster, slot_id) = roster_with("esp32-s3-test", "unreachable");
    let mut s = DeploySentant::new();
    let p = BatchStart {
        batch_id: Some("bX".to_string()),
        artefact_path: Some("/tmp/fw.bin".to_string()),
        targets: Some(vec![target(&slot_id, "192.168.1.42", None)]),
    };
    let out = s.batch_start(&p, Some(&roster), None);
    assert!(out.iter().all(|a| !matches!(a, DeployEmit::PushStart(_))), "must not push to an unreachable device");
    let err = out.iter().find(|a| matches!(a, DeployEmit::DeviceError { .. })).expect("device.error");
    if let DeployEmit::DeviceError { error_kind, message, batch_id, .. } = err {
        assert_eq!(error_kind, "unreachable");
        assert_eq!(message, "E_OTA_UNREACHABLE: device state is not reachable");
        assert_eq!(batch_id, "bX");
    }
    let done = out.iter().find(|a| matches!(a, DeployEmit::BatchDone { .. })).expect("batch.done");
    if let DeployEmit::BatchDone { ok_count, error_count, .. } = done {
        assert_eq!(*ok_count, 0);
        assert_eq!(*error_count, 1);
    }
    assert_eq!(s.state(), 0);
}

#[test]
fn device_done_advances_then_completes_batch() {
    let (roster, slot_id) = roster_with("esp32-s3-test", "reachable");
    let mut s = DeploySentant::new();
    let p = BatchStart {
        batch_id: Some("bX".to_string()),
        artefact_path: Some("/tmp/fw.bin".to_string()),
        targets: Some(vec![target(&slot_id, "10.0.0.5", None)]),
    };
    let _ = s.batch_start(&p, Some(&roster), None);
    assert_eq!(s.state(), 2);
    let hd = hn("r2.composer.deploy.device.done");
    let done_payload = format!(r#"{{"batch_id":"bX","slot_id":"{slot_id}","artefact_sha256":"ab","duration_ms":10}}"#);
    let out = emits(s.handle_event(hd, true, done_payload.as_bytes()));
    assert!(out.iter().any(|a| matches!(a, DeployEmit::Rebroadcast { hash, .. } if *hash == hd)));
    let done = out.iter().find(|a| matches!(a, DeployEmit::BatchDone { .. })).expect("batch.done");
    if let DeployEmit::BatchDone { ok_count, error_count, batch_id } = done {
        assert_eq!(*ok_count, 1);
        assert_eq!(*error_count, 0);
        assert_eq!(batch_id, "bX");
    }
    assert_eq!(s.state(), 0);
    assert!(!s.has_batch());
}

#[test]
fn batch_pushes_run_one_at_a_time_in_order() {
    let mut roster = Roster::default();
    let mut ids = Vec::new();
    for host in ["a", "b", "c"] {
        let mut row = new_placeholder("sensor", "e", host, "x", NOW);
        row.state = "reachable".to_string();
        ids.push(row.slot_id.clone());
        roster.devices.push(row);
    }
    let mut s = DeploySentant::new();
    let p = BatchStart {
        batch_id: Some("b1".to_string()),
        artefact_path: Some("/fw.bin".to_string()),
        targets: Some(vec![
            target(&ids[0], "10.0.0.1", Some(9000)),
            BatchTarget { slot_id: None, ip: Some("10.0.0.9".to_string()), port: None },
            target(&ids[1], "", None),
            target(&ids[2], "10.0.0.3", Some(65536 + 7)),
        ]),
    };
    let out = s.batch_start(&p, Some(&roster), None);
    // The slot without an address is gated out; the first push starts.
    assert_eq!(out.len(), 2);
    match &out[0] {
        DeployEmit::DeviceError { slot_id, message, .. } => {
            assert_eq!(slot_id, &ids[1]);
            assert_eq!(message, "E_OTA_UNREACHABLE: no IP known for slot");
        }
        other => panic!("expected DeviceError, got {other:?}"),
    }
    match &out[1] {
        DeployEmit::PushStart(q) => {
            assert_eq!(q.slot_id, ids[0]);
            assert_eq!(q.port, 9000);
        }
        other => panic!("expected PushStart, got {other:?}"),
    }
    // The first push fails: the next one starts (port cut to 16 bits).
    let out = emits(s.handle_event(hn("r2.composer.deploy.device.error"), true, b"{}"));
    assert_eq!(out.len(), 2);
    match &out[1] {
        DeployEmit::PushStart(q) => {
            assert_eq!(q.slot_id, ids[2]);
            assert_eq!(q.port, 7);
        }
        other => panic!("expected PushStart, got {other:?}"),
    }
    // The last one succeeds: the batch closes with every named target counted.
    let out = emits(s.handle_event(hn("r2.composer.deploy.device.done"), true, b"{}"));
    match &out[1] {
        DeployEmit::BatchDone { ok_count, error_count, .. } => {
            assert_eq!((*ok_count, *error_count), (1, 2));
        }
        other => panic!("expected BatchDone, got {other:?}"),
    }
    assert!(!s.has_batch());
}

#[test]
fn batch_without_artefact_counts_every_target_failed() {
    let mut s = DeploySentant::new();
    let p = BatchStart {
        batch_id: Some("b2".to_string()),
        artefact_path: None,
        targets: Some(vec![target("x", "1.2.3.4", None), target("y", "1.2.3.5", None)]),
    };
    let out = s.batch_start(&p, None, None);
    assert_eq!(out.len(), 1);
    assert!(matches!(&out[0], DeployEmit::BatchDone { ok_count: 0, error_count: 2, .. }));
    let p = BatchStart { batch_id: Some("b3".to_string()), artefact_path: None, targets: None };
    let out = s.batch_start(&p, None, None);
    assert!(matches!(&out[0], DeployEmit::BatchDone { ok_count: 0, error_count: 1, .. }));
    assert_eq!(s.state(), 0);
}

#[test]
fn batch_ids_from_the_clock() {
    assert_eq!(batch_id_from_nanos(0), "b000000");
    assert_eq!(batch_id_from_nanos(0x1234_5678_9abc), "b789abc");
    let id = synth_batch_id();
    assert_eq!(id.len(), 7);
    assert!(id.starts_with('b'));
    assert!(id[1..].chars().all(|c| c.is_ascii_hexdigit() && !c.is_ascii_uppercase()));
    let mut s = DeploySentant::new();
    let p = BatchStart { batch_id: None, artefact_path: None, targets: None };
    match &s.batch_start(&p, None, None)[0] {
        DeployEmit::BatchDone { batch_id, .. } => assert_eq!(batch_id.len(), 7),
        other => panic!("expected BatchDone, got {other:?}"),
    }
}

#[test]
fn deploy_identity() {
    let s = DeploySentant::new();
    assert_eq!(s.name(), "Deploy");
    assert_eq!(s.class_hash(), fnv1a_32("ai.reality2.composer.sentant.deploy"));
    let subs = s.subscriptions();
    assert_eq!(subs.len(), 8);
    assert_eq!(subs[4], hn("r2.composer.deploy.batch.start"));
}

use r2_composer::fnv::fnv1a_32;
use r2_composer::handshake::{inbound_frame_len, outbound_frame_header, MAX_INBOUND_FRAME};
use r2_composer::provision::{
    compose_offer, list_networks, upsert_network, ComposeOfferRequest, UpsertPayload, WifiNetworksFile,
    ERR_BAD_CERT, ERR_NO_NETWORK,
};
use r2_composer::provision_sentant::{
    cert_path, device_name, find_unique_pending_slot, BeaconSeen, IdentitySeen, ProvisionEmit,
    ProvisionRoute, ProvisionSentant,
};
use r2_composer::roster::{new_placeholder, Roster};

const NOW: &str = "2026-06-02T00:00:00Z";

fn net(name: &str, ssid: &str, psk: &str, dflt: bool) -> UpsertPayload {
    UpsertPayload { name: name.to_string(), ssid: ssid.to_string(), psk: psk.to_string(), is_default: dflt }
}

fn empty_file() -> WifiNetworksFile {
    WifiNetworksFile { networks: Vec::new() }
}

// ── provisioning plugin: the WiFi network file and the offer ────────

#[test]
fn upsert_creates_and_replaces() {
    let mut f = empty_file();
    upsert_network(&mut f, net("UoA-Lab", "UoA-Lab", "hunter2hunter2", true));
    upsert_network(&mut f, net("UoA-Lab", "UoA-Lab", "newpsk", true));
    assert_eq!(f.networks.len(), 1);
    assert_eq!(f.networks[0].psk, "newpsk");
}

#[test]
fn default_is_unique() {
    let mut f = empty_file();
    for (name, dflt) in [("A", true), ("B", true)] {
        upsert_network(&mut f, net(name, name, "x", dflt));
    }
    let defaults: Vec<_> = f.networks.iter().filter(|n| n.is_default).collect();
    assert_eq!(defaults.len(), 1, "exactly one default at a time");
    assert_eq!(defaults[0].name, "B");
}

#[test]
fn list_omits_psk() {
    let mut f = empty_file();
    upsert_network(&mut f, net("lab", "lab", "secret", true));
    let listing = list_networks(&f);
    assert_eq!(listing.len(), 1);
    let rendered = format!("{listing:?}");
    assert!(!rendered.contains("secret"), "PSK MUST NOT appear in the listing: {rendered}");
    assert_eq!(listing[0].ssid, "lab");
    assert_eq!(listing[0].name, "lab");
    assert!(listing[0].is_default);
}

#[test]
fn compose_offer_packs_correctly() {
    let mut f = empty_file();
    upsert_network(&mut f, net("lab", "lab", "secret", true));
    let cert = vec![0xAB; 144];
    let req = ComposeOfferRequest { slot_id: "slot:x".into(), network_name: None, cert: cert.clone() };
    let o = compose_offer(&req, &f).expect("offer composed");
    let offer = hex::decode(&o.offer_hex).unwrap();
    assert_eq!(&offer[..4], b"R2WO");
    assert_eq!(offer[4], 0x01);
    let ssid_len = offer[5] as usize;
    assert_eq!(ssid_len, 3);
    assert_eq!(&offer[6..6 + ssid_len], b"lab");
    let psk_off = 6 + ssid_len;
    let psk_len = offer[psk_off] as usize;
    assert_eq!(psk_len, 6);
    assert_eq!(&offer[psk_off + 1..psk_off + 1 + psk_len], b"secret");
    let cert_len_off = psk_off + 1 + psk_len;
    let cert_len = u16::from_be_bytes(offer[cert_len_off..cert_len_off + 2].try_into().unwrap());
    assert_eq!(cert_len, 144);
    assert_eq!(&offer[cert_len_off + 2..], &cert[..]);
    assert_eq!(o.offer_len, offer.len());
    assert_eq!(o.slot_id, "slot:x");
    assert_eq!(o.ssid, "lab");
    // What is emitted never carries the PSK on its own.
    assert!(!o.slot_id.contains("secret") && !o.network_name.contains("secret") && !o.ssid.contains("secret"));
}

#[test]
fn compose_without_networks_errors() {
    let f = empty_file();
    let req = ComposeOfferRequest { slot_id: "slot:x".into(), network_name: None, cert: vec![0; 144] };
    let e = compose_offer(&req, &f).unwrap_err();
    assert_eq!(e.code, ERR_NO_NETWORK);
}

#[test]
fn bad_cert_length_rejected() {
    let f = empty_file();
    let req = ComposeOfferRequest { slot_id: "slot:x".into(), network_name: None, cert: vec![0; 100] };
    let e = compose_offer(&req, &f).unwrap_err();
    assert_eq!(e.code, ERR_BAD_CERT);
    assert_eq!(e.message, "cert must be 144 bytes, got 100");
}

#[test]
fn named_network_is_chosen_over_default() {
    let mut f = empty_file();
    upsert_network(&mut f, net("home", "Home", "pw1", true));
    upsert_network(&mut f, net("lab", "Lab", "pw2", false));
    let req = ComposeOfferRequest { slot_id: "s".into(), network_name: Some("lab".into()), cert: vec![1; 144] };
    let o = compose_offer(&req, &f).unwrap();
    assert_eq!(o.network_name, "lab");
    let req = ComposeOfferRequest { slot_id: "s".into(), network_name: Some("nope".into()), cert: vec![1; 144] };
    assert_eq!(compose_offer(&req, &f).unwrap_err().code, ERR_NO_NETWORK);
}

// ── provision sentant ──────────────────────────────────────────────

fn pending_roster() -> (Roster, String) {
    let mut r = Roster::default();
    let mut row = new_placeholder("sensor", "rocker-sensor", "esp32-s3-xiao", "kitchen", NOW);
    row.state = "flashed_pending_pk".to_string();
    let slot_id = row.slot_id.clone();
    r.devices.push(row);
    (r, slot_id)
}

fn beacon(addr: &str, provisioning: bool) -> BeaconSeen {
    BeaconSeen { ble_addr: Some(addr.to_string()), provisioning: Some(provisioning) }
}

#[test]
fn beacon_provisioning_dispatches_handshake() {
    let (r, slot_id) = pending_roster();
    let mut s = ProvisionSentant::new();
    assert_eq!(s.route(fnv1a_32("r2.composer.device.beacon_observed"), true), ProvisionRoute::Beacon);
    let req = s.handle_beacon(&beacon("AA:BB:CC:DD:EE:FF", true), Some(&r)).expect("handshake dispatched");
    assert_eq!(req.ble_addr, "AA:BB:CC:DD:EE:FF");
    assert_eq!(req.slot_id_hint.as_deref(), Some(slot_id.as_str()));
    assert_eq!(req.device_name, format!("device-{}", &slot_id[..8]));
    assert!(s.is_in_flight("AA:BB:CC:DD:EE:FF"));
}

#[test]
fn beacon_already_in_flight_is_ignored() {
    let (r, _) = pending_roster();
    let mut s = ProvisionSentant::new();
    let first = s.handle_beacon(&beacon("AA:BB:CC:DD:EE:FF", true), Some(&r));
    assert!(first.is_some(), "first observation should dispatch");
    let second = s.handle_beacon(&beacon("AA:BB:CC:DD:EE:FF", true), Some(&r));
    assert!(second.is_none(), "in-flight beacon should NOT re-dispatch");
}

#[test]
fn beacon_no_pending_slot_is_skipped() {
    let r = Roster::default();
    let mut s = ProvisionSentant::new();
    assert!(s.handle_beacon(&beacon("AA:BB:CC:DD:EE:FF", true), Some(&r)).is_none(), "no flashed_pending_pk slot ⇒ no dispatch");
    assert!(!s.is_in_flight("AA:BB:CC:DD:EE:FF"));
}

#[test]
fn beacon_non_provisioning_is_ignored() {
    let (r, _) = pending_roster();
    let mut s = ProvisionSentant::new();
    assert!(s.handle_beacon(&beacon("AA:BB:CC:DD:EE:FF", false), Some(&r)).is_none());
    assert!(s.handle_beacon(&BeaconSeen { ble_addr: None, provisioning: Some(true) }, Some(&r)).is_none());
}

#[test]
fn identity_writes_cert_and_emits_enrolled() {
    let (r, slot_id) = pending_roster();
    let mut s = ProvisionSentant::new();
    let device_pk_hex = "ab".repeat(32);
    let cert_hex = "11".repeat(147);
    let p = IdentitySeen {
        ble_addr: Some("AA:BB:CC:DD:EE:FF".to_string()),
        device_pk: Some(device_pk_hex.clone()),
        cert_hex: Some(cert_hex.clone()),
        slot_id_hint: Some(slot_id.clone()),
    };
    let out = s.handle_identity(&p, Some(&r));
    match &out[0] {
        ProvisionEmit::WriteCert { device_pk, cert } => {
            assert_eq!(device_pk, &device_pk_hex);
            assert_eq!(cert.len(), 147);
        }
        other => panic!("expected WriteCert, got {other:?}"),
    }
    assert_eq!(
        cert_path("/apiaries/a", &device_pk_hex),
        format!("/apiaries/a/devices/certs/{device_pk_hex}.bin")
    );
    let enrolled = out.iter().any(|e| matches!(e,
        ProvisionEmit::Enrolled { slot_id: s, device_pk, cert_hex: c, ble_addr }
            if s == &slot_id && device_pk == &device_pk_hex && c == &cert_hex && ble_addr == "AA:BB:CC:DD:EE:FF"));
    assert!(enrolled, "expected device.enrolled");
}

#[test]
fn identity_clears_in_flight_and_falls_back_to_the_pending_slot() {
    let (r, slot_id) = pending_roster();
    let mut s = ProvisionSentant::new();
    s.handle_beacon(&beacon("AA:BB:CC:DD:EE:FF", true), Some(&r)).unwrap();
    let p = IdentitySeen {
        ble_addr: Some("AA:BB:CC:DD:EE:FF".to_string()),
        device_pk: Some("cd".repeat(32)),
        cert_hex: Some("00ff".to_string()),
        slot_id_hint: Some(String::new()),
    };
    let out = s.handle_identity(&p, Some(&r));
    assert!(!s.is_in_flight("AA:BB:CC:DD:EE:FF"));
    assert_eq!(out.len(), 2);
    assert!(matches!(&out[1], ProvisionEmit::Enrolled { slot_id: x, .. } if x == &slot_id));
    // A certificate that is not hex yields nothing.
    let bad = IdentitySeen { cert_hex: Some("zz".to_string()), ..p.clone() };
    assert!(s.handle_identity(&bad, Some(&r)).is_empty());
    // Without a key nothing happens.
    let none = IdentitySeen { device_pk: None, ..p };
    assert!(s.handle_identity(&none, Some(&r)).is_empty());
}

#[test]
fn handshake_error_frees_the_address() {
    let (r, _) = pending_roster();
    let mut s = ProvisionSentant::new();
    s.handle_beacon(&beacon("AA:BB:CC:DD:EE:FF", true), Some(&r)).unwrap();
    match s.handle_handshake_error(Some("AA:BB:CC:DD:EE:FF"), b"{\"code\":5}") {
        ProvisionEmit::Rebroadcast { hash, payload } => {
            assert_eq!(hash, fnv1a_32("r2.composer.provision.handshake.error"));
            assert_eq!(payload, b"{\"code\":5}".to_vec());
        }
        other => panic!("expected Rebroadcast, got {other:?}"),
    }
    assert!(!s.is_in_flight("AA:BB:CC:DD:EE:FF"));
    // The next beacon tries again.
    assert!(s.handle_beacon(&beacon("AA:BB:CC:DD:EE:FF", true), Some(&r)).is_some());
}

#[test]
fn two_pending_slots_are_ambiguous() {
    let (mut r, _) = pending_roster();
    assert!(find_unique_pending_slot(Some(&r)).is_some());
    let mut row = new_placeholder("sensor", "rocker-sensor", "esp32-c6", "lounge", NOW);
    row.state = "flashed_pending_pk".to_string();
    r.devices.push(row);
    assert!(find_unique_pending_slot(Some(&r)).is_none());
    assert!(find_unique_pending_slot(None).is_none());
}

#[test]
fn device_names_cut_the_slot_id() {
    assert_eq!(device_name("0123456789abcdef"), "device-01234567");
    assert_eq!(device_name("abc"), "device-abc");
}

#[test]
fn provision_identity() {
    let s = ProvisionSentant::new();
    assert_eq!(s.name(), "Provision");
    assert_eq!(s.subscriptions().len(), 3);
    assert_eq!(s.route(fnv1a_32("r2.composer.device.identity_observed"), false), ProvisionRoute::Ignore);
    assert_eq!(s.route(fnv1a_32("r2.composer.device.identity_observed"), true), ProvisionRoute::Identity);
}

// ── handshake framing ──────────────────────────────────────────────

#[test]
fn handshake_frames_are_length_prefixed() {
    assert_eq!(outbound_frame_header(300).unwrap(), [0x2C, 0x01]);
    assert_eq!(outbound_frame_header(70000).unwrap_err(), "frame too large: 70000 bytes");
    assert_eq!(inbound_frame_len([0x00, 0x10]).unwrap(), MAX_INBOUND_FRAME as usize);
    assert_eq!(inbound_frame_len([0x01, 0x10]).unwrap_err(), "invalid inbound length: 4097");
    assert_eq!(inbound_frame_len([0, 0]).unwrap_err(), "invalid inbound length: 0");
}

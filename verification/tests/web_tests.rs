use ed25519_dalek::{Signer, SigningKey};
use r2_composer::fnv::fnv1a_32;
use r2_composer::roster::{new_placeholder, Roster};
use r2_composer::web::{
    default_max_frame_bytes, default_mount, normalise_prefix, roster_is_live_member, verify_ws_auth,
    AuthError, Channel, InboundAction, R2WebRegistration, Subscription, WireChannel,
    WsAuthEnvelope, REPLAY_WINDOW_SECS,
};

#[test]
fn prefix_normalisation() {
    assert_eq!(normalise_prefix("/proof"), "/proof");
    assert_eq!(normalise_prefix("proof"), "/proof");
    assert_eq!(normalise_prefix("/proof/"), "/proof");
    assert_eq!(normalise_prefix("///proof///"), "/proof");
    assert_eq!(normalise_prefix("/"), "/");
    assert_eq!(normalise_prefix(""), "/");
    assert_eq!(normalise_prefix("  /a/b/  "), "/a/b");
}

#[test]
fn normalised_prefixes_are_fixed_points() {
    for raw in ["/proof", "proof/", "  //x//  ", "", "/", "/a b", "/ a"] {
        let once = normalise_prefix(raw);
        assert_eq!(normalise_prefix(&once), once);
    }
    // The one shape that is not: the part between the slashes ends in space.
    assert_eq!(normalise_prefix("a /"), "/a ");
    assert_eq!(normalise_prefix("/a "), "/a");
}

fn proof_registration() -> R2WebRegistration {
    R2WebRegistration {
        route_prefix: "/proof".into(),
        static_bundle: "./web/".into(),
        channels: vec![Channel {
            name: "r2".into(),
            target_sentant: Some("TestCoordinator".into()),
            max_frame_bytes: 65536,
        }],
        subscriptions: vec![Subscription { name: "delivery".into(), event: "r2.tn.delivered".into() }],
        graphql: None,
        blob_routes: Vec::new(),
        diagnostics: true,
    }
}

fn proof_channel() -> WireChannel {
    let reg = proof_registration();
    WireChannel::new(&reg.channels[0], &reg.subscriptions)
}

#[test]
fn mount_prefix_and_defaults() {
    let mut reg = proof_registration();
    reg.route_prefix = "dash/".into();
    assert_eq!(reg.mount_prefix(), "/dash");
    assert_eq!(default_max_frame_bytes(), 65536);
    assert_eq!(default_mount(), "/");
}

#[test]
fn wire_channel_built_from_registration() {
    let ch = proof_channel();
    assert_eq!(ch.name(), "r2");
    assert_eq!(ch.max_frame_bytes(), 65536);
}

#[test]
fn inbound_within_limit_injects_to_target() {
    let ch = proof_channel(); // target_sentant = TestCoordinator, max 65536
    match ch.on_inbound(&[0u8; 100]) {
        InboundAction::Inject { target, frame } => {
            assert_eq!(target.as_deref(), Some("TestCoordinator"));
            assert_eq!(frame.len(), 100);
        }
        other => panic!("expected Inject, got {other:?}"),
    }
}

#[test]
fn inbound_oversize_rejected() {
    let ch = proof_channel();
    let big = vec![0u8; 65536 + 1];
    assert_eq!(ch.on_inbound(&big), InboundAction::RejectOversize { len: 65537, max: 65536 });
}

#[test]
fn outbound_only_for_subscribed_events() {
    let ch = proof_channel(); // subscribes to "r2.tn.delivered"
    let subscribed = fnv1a_32("r2.tn.delivered");
    let other = fnv1a_32("r2.tn.dropped");
    assert_eq!(ch.outbound_for(subscribed, b"payload"), Some(b"payload".to_vec()));
    assert_eq!(ch.outbound_for(other, b"payload"), None);
}

fn test_key(seed: u8) -> SigningKey {
    SigningKey::from_bytes(&[seed; 32])
}

fn signed_envelope(sk: &SigningKey, timestamp: i64, payload: &str) -> WsAuthEnvelope {
    let device_id = hex::encode(sk.verifying_key().to_bytes());
    let signed = format!("{device_id}:{timestamp}:{payload}");
    let signature = hex::encode(sk.sign(signed.as_bytes()).to_bytes());
    WsAuthEnvelope { device_id, timestamp, signature, payload: payload.to_string() }
}

#[test]
fn valid_signed_envelope_authenticates() {
    let sk = test_key(0x11);
    let pk = sk.verifying_key().to_bytes();
    let env = signed_envelope(&sk, 1_000_000, r#"{"type":"authenticate"}"#);
    let got = verify_ws_auth(Some(&env), 1_000_000, REPLAY_WINDOW_SECS, |p| p == &pk).unwrap();
    assert_eq!(got, pk);
    // small clock skew within the window still passes
    assert!(verify_ws_auth(Some(&env), 1_000_030, REPLAY_WINDOW_SECS, |p| p == &pk).is_ok());
}

#[test]
fn expired_timestamp_rejected() {
    let sk = test_key(0x22);
    let pk = sk.verifying_key().to_bytes();
    let env = signed_envelope(&sk, 1_000_000, "{}");
    let r = verify_ws_auth(Some(&env), 1_000_000 + 120, REPLAY_WINDOW_SECS, |p| p == &pk);
    assert_eq!(r, Err(AuthError::Expired));
}

#[test]
fn tampered_payload_fails_signature() {
    let sk = test_key(0x33);
    let pk = sk.verifying_key().to_bytes();
    // Sign payload A, then swap in payload B keeping the signature.
    let device_id = hex::encode(pk);
    let signed = format!("{device_id}:1000000:A");
    let signature = hex::encode(sk.sign(signed.as_bytes()).to_bytes());
    let tampered = WsAuthEnvelope { device_id, timestamp: 1_000_000, signature, payload: "B".into() };
    assert_eq!(
        verify_ws_auth(Some(&tampered), 1_000_000, REPLAY_WINDOW_SECS, |p| p == &pk),
        Err(AuthError::BadSignature)
    );
}

#[test]
fn non_member_rejected_before_crypto() {
    let sk = test_key(0x44);
    let env = signed_envelope(&sk, 1_000_000, "{}");
    // is_live_member says no → NotMember (even though the sig is valid).
    assert_eq!(
        verify_ws_auth(Some(&env), 1_000_000, REPLAY_WINDOW_SECS, |_| false),
        Err(AuthError::NotMember)
    );
}

#[test]
fn malformed_and_bad_device_id() {
    assert_eq!(verify_ws_auth(None, 0, REPLAY_WINDOW_SECS, |_| true), Err(AuthError::Malformed));
    // valid envelope shape but device_id is not 32-byte hex
    let bad = WsAuthEnvelope {
        device_id: "xyz".into(),
        timestamp: 0,
        signature: "00".into(),
        payload: "{}".into(),
    };
    assert_eq!(verify_ws_auth(Some(&bad), 0, REPLAY_WINDOW_SECS, |_| true), Err(AuthError::BadDeviceId));
    // a good key with a signature that is not 64 bytes of hex
    let sk = test_key(0x45);
    let mut env = signed_envelope(&sk, 5, "{}");
    env.signature = "00".into();
    assert_eq!(verify_ws_auth(Some(&env), 5, REPLAY_WINDOW_SECS, |_| true), Err(AuthError::Malformed));
}

#[test]
fn wrong_key_signature_rejected() {
    // Envelope signed by a different key than its device_id claims.
    let real = test_key(0x55);
    let pk = real.verifying_key().to_bytes();
    let device_id = hex::encode(pk);
    let imposter = test_key(0x56);
    let signed = format!("{device_id}:1000000:{{}}");
    let signature = hex::encode(imposter.sign(signed.as_bytes()).to_bytes());
    let env = WsAuthEnvelope { device_id, timestamp: 1_000_000, signature, payload: "{}".into() };
    assert_eq!(
        verify_ws_auth(Some(&env), 1_000_000, REPLAY_WINDOW_SECS, |p| p == &pk),
        Err(AuthError::BadSignature)
    );
}

#[test]
fn negative_timestamps_are_signed_in_decimal() {
    let sk = test_key(0x66);
    let pk = sk.verifying_key().to_bytes();
    let env = signed_envelope(&sk, -42, "{}");
    assert_eq!(verify_ws_auth(Some(&env), -20, REPLAY_WINDOW_SECS, |_| true), Ok(pk));
}

fn seeded_roster(rows: &[([u8; 32], &str, &str)]) -> Roster {
    let mut r = Roster::default();
    for (pk, cert_status, state) in rows {
        let mut row = new_placeholder("sensor", "e", "esp32-s3-xiao", "a", "2026-01-01T00:00:00Z");
        row.device_pk = Some(hex::encode(pk));
        row.cert_status = (*cert_status).into();
        row.state = (*state).into();
        r.devices.push(row);
    }
    r
}

#[test]
fn roster_membership_gates_by_cert_and_state() {
    let live = test_key(0x77).verifying_key().to_bytes();
    let revoked = test_key(0x78).verifying_key().to_bytes();
    let unknown = test_key(0x79).verifying_key().to_bytes();
    let retired = test_key(0x7C).verifying_key().to_bytes();
    let roster = seeded_roster(&[
        (live, "valid", "reachable"),
        (revoked, "revoked", "revoked"),
        (retired, "valid", "retired"),
    ]);
    assert!(roster_is_live_member(&roster, &live));
    assert!(!roster_is_live_member(&roster, &revoked));
    assert!(!roster_is_live_member(&roster, &unknown));
    assert!(!roster_is_live_member(&roster, &retired));
}

#[test]
fn verify_ws_auth_backed_by_roster() {
    let sk = test_key(0x7A);
    let pk = sk.verifying_key().to_bytes();
    let roster = seeded_roster(&[(pk, "valid", "reachable")]);
    let env = signed_envelope(&sk, 1_000_000, "{}");
    let got = verify_ws_auth(Some(&env), 1_000_000, REPLAY_WINDOW_SECS, |p| roster_is_live_member(&roster, p)).unwrap();
    assert_eq!(got, pk);
    // A valid signature from a non-enrolled key is refused (NotMember).
    let stranger = test_key(0x7B);
    let env2 = signed_envelope(&stranger, 1_000_000, "{}");
    assert_eq!(
        verify_ws_auth(Some(&env2), 1_000_000, REPLAY_WINDOW_SECS, |p| roster_is_live_member(&roster, p)),
        Err(AuthError::NotMember)
    );
}

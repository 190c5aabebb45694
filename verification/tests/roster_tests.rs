use r2_composer::roster::{
    apply_transition, default_unknown, find_mut, is_valid_transition, new_placeholder, Roster,
};

#[test]
fn new_placeholder_starts_in_placeholder_state() {
    let row = new_placeholder("sensor", "rocker-sensor", "esp32-s3-xiao", "kitchen", "2026-06-01T00:00:00Z");
    assert_eq!(row.state, "placeholder");
    assert_eq!(row.role, "sensor");
    assert_eq!(row.host, "esp32-s3-xiao");
    assert_eq!(row.name_alias, "kitchen");
    assert!(!row.slot_id.is_empty());
    assert_eq!(row.history.len(), 1);
    assert_eq!(row.history[0].from, "");
    assert_eq!(row.history[0].to, "placeholder");
    assert_eq!(row.provision_state, "unknown");
    assert_eq!(row.cert_status, "unknown");
    assert!(row.device_pk.is_none());
}

#[test]
fn transitions_validated_against_table() {
    assert!(is_valid_transition("placeholder", "built"));
    assert!(is_valid_transition("built", "flashed_pending_pk"));
    assert!(is_valid_transition("flashed_pending_pk", "enrolled"));
    assert!(is_valid_transition("reachable", "unreachable"));
    assert!(is_valid_transition("unreachable", "reachable"));

    // Forbidden — flashed_pending_pk cannot regress to built without a fresh USB flash.
    assert!(!is_valid_transition("flashed_pending_pk", "built"));
    // Forbidden — no skipping states.
    assert!(!is_valid_transition("placeholder", "enrolled"));
    // Forbidden — PURGED is a sink; cannot re-emerge.
    assert!(!is_valid_transition("PURGED", "retired"));
}

#[test]
fn apply_transition_appends_history_and_updates_state() {
    let mut row = new_placeholder("sensor", "rocker-sensor", "esp32-s3-xiao", "", "2026-06-01T00:00:00Z");
    apply_transition(&mut row, "built", "built", "artefact x", "2026-06-01T01:00:00Z").unwrap();
    assert_eq!(row.state, "built");
    assert_eq!(row.history.len(), 2);
    assert_eq!(row.history[1].from, "placeholder");
    assert_eq!(row.history[1].to, "built");
}

#[test]
fn apply_transition_refuses_invalid() {
    let mut row = new_placeholder("sensor", "rocker-sensor", "esp32-s3-xiao", "", "2026-06-01T00:00:00Z");
    let err = apply_transition(&mut row, "enrolled", "wrong", "", "2026-06-01T01:00:00Z").unwrap_err();
    assert!(err.contains("E_ROSTER_TRANSITION_REFUSED"));
    // Row state unchanged.
    assert_eq!(row.state, "placeholder");
    assert_eq!(row.history.len(), 1);
}

#[test]
fn refusal_message_names_both_states() {
    let mut row = new_placeholder("sensor", "e", "esp32-s3-xiao", "", "t0");
    let err = apply_transition(&mut row, "enrolled", "x", "", "t1").unwrap_err();
    assert_eq!(err, "E_ROSTER_TRANSITION_REFUSED: placeholder → enrolled is not in the transition table");
}

#[test]
fn whole_lifecycle_walks_the_table() {
    let mut row = new_placeholder("sensor", "e", "esp32-s3-xiao", "", "t0");
    for (i, to) in ["built", "flashed_pending_pk", "enrolled", "reachable", "unreachable", "revoked", "retired", "PURGED"]
        .iter()
        .enumerate()
    {
        apply_transition(&mut row, to, "step", "", "t").unwrap();
        assert_eq!(row.state, *to);
        assert_eq!(row.history.len(), i + 2);
    }
    // PURGED is a sink.
    for to in ["", "placeholder", "built", "retired", "PURGED"] {
        assert!(apply_transition(&mut row, to, "x", "", "t").is_err());
    }
    assert_eq!(default_unknown(), "unknown");
}

#[test]
fn slot_ids_are_uuid_v4_text() {
    let a = new_placeholder("r", "e", "h", "", "t");
    let b = new_placeholder("r", "e", "h", "", "t");
    assert_eq!(a.slot_id.len(), 36);
    assert_eq!(a.slot_id.as_bytes()[14], b'4');
    assert_ne!(a.slot_id, b.slot_id);
}

#[test]
fn find_mut_edits_the_first_matching_row() {
    let mut roster = Roster::default();
    roster.devices.push(new_placeholder("a", "e", "h", "", "t"));
    roster.devices.push(new_placeholder("b", "e", "h", "", "t"));
    let id = roster.devices[1].slot_id.clone();
    {
        let row = find_mut(&mut roster, &id).expect("present");
        row.name_alias = "kitchen".into();
    }
    assert_eq!(roster.devices[1].name_alias, "kitchen");
    assert_eq!(roster.devices[0].name_alias, "");
    assert!(find_mut(&mut roster, "missing").is_none());
}

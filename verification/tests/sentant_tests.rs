use r2_composer::authoring::{fallback_brief, template_name, AuthorSentant, BuilderSentant, RouterAction};
use r2_composer::claude_code::CMD_START;
use r2_composer::fnv::fnv1a_32;
use r2_composer::roster::{new_placeholder, Roster};
use r2_composer::roster_sentant::{
    device_enrolled, first_install_done, slot_create, EnrolOutcome, FirstInstallOutcome, RosterRoute,
    RosterSentant,
};

const NOW: &str = "2026-06-01T00:00:00Z";

// ── roster sentant ──────────────────────────────────────────────────

#[test]
fn slot_create_appends_row_and_emits_two_actions() {
    let s = RosterSentant::new();
    assert_eq!(s.route(fnv1a_32("r2.composer.device.slot.create"), false), RosterRoute::SlotCreate);
    let mut roster = Roster::default();
    let idx = slot_create(&mut roster, "sensor", "rocker-sensor", "esp32-s3-xiao", "kitchen", NOW);
    // The created row is published as a device.entry, its creation as a
    // device.transition.
    assert_eq!(idx, Some(0));
    assert_eq!(s.entry_hash(), fnv1a_32("r2.composer.device.entry"));
    assert_eq!(s.transition_hash(), fnv1a_32("r2.composer.device.transition"));
    assert_eq!(roster.devices.len(), 1);
    assert_eq!(roster.devices[0].state, "placeholder");
    assert_eq!(roster.devices[0].name_alias, "kitchen");
}

#[test]
fn list_emits_one_entry_per_row() {
    let s = RosterSentant::new();
    let mut roster = Roster::default();
    roster.devices.push(new_placeholder("sensor", "rocker-sensor", "esp32-s3-xiao", "kitchen", NOW));
    roster.devices.push(new_placeholder("sensor", "rocker-sensor", "esp32-c6-dfr1117", "lounge", "2026-06-01T00:00:01Z"));
    assert_eq!(s.route(fnv1a_32("r2.composer.device.list"), false), RosterRoute::List);
    // One device.entry per row.
    assert_eq!(roster.devices.len(), 2);
}

#[test]
fn missing_fields_silently_sluffs() {
    let mut roster = Roster::default();
    let idx = slot_create(&mut roster, "sensor", "", "", "", NOW);
    assert!(idx.is_none());
    assert_eq!(roster.devices.len(), 0);
}

#[test]
fn first_install_done_drives_placeholder_to_flashed_pending_pk() {
    let s = RosterSentant::new();
    assert_eq!(
        s.route(fnv1a_32("r2.composer.deploy.first_install.done"), true),
        RosterRoute::FirstInstallDone
    );
    let mut r = Roster::default();
    let row = new_placeholder("sensor", "rocker-sensor", "esp32-s3-xiao", "kitchen", NOW);
    let slot_id = row.slot_id.clone();
    r.devices.push(row);
    let out = first_install_done(&mut r, &slot_id, "/dev/ttyACM0", "2026-06-01T00:01:00Z");
    match out {
        FirstInstallOutcome::Applied { index, transitions, new_state } => {
            assert_eq!(index, 0);
            assert!(transitions.len() >= 2, "expected ≥2 transitions, got {}", transitions.len());
            assert_eq!(new_state, "flashed_pending_pk");
        }
        other => panic!("expected Applied, got {other:?}"),
    }
    let row = r.devices.iter().find(|d| d.slot_id == slot_id).expect("row");
    assert_eq!(row.state, "flashed_pending_pk");
    assert!(row.history.len() >= 3, "history should grow on each transition; got {}", row.history.len());
    let last = row.history.last().unwrap();
    assert_eq!(last.from, "built");
    assert_eq!(last.to, "flashed_pending_pk");
    assert!(last.detail.contains("/dev/ttyACM0"));
}

#[test]
fn device_enrolled_drives_flashed_pending_to_enrolled() {
    let s = RosterSentant::new();
    assert_eq!(s.route(fnv1a_32("r2.composer.device.enrolled"), false), RosterRoute::DeviceEnrolled);
    let mut r = Roster::default();
    let mut row = new_placeholder("sensor", "rocker-sensor", "esp32-s3-xiao", "kitchen", NOW);
    row.state = "flashed_pending_pk".to_string();
    let slot_id = row.slot_id.clone();
    r.devices.push(row);
    let device_pk = "ab".repeat(32);
    let out = device_enrolled(&mut r, &slot_id, &device_pk, "2026-06-01T00:02:00Z");
    match out {
        EnrolOutcome::Enrolled { index, transition } => {
            assert_eq!(index, 0);
            assert_eq!(transition.from, "flashed_pending_pk");
            assert_eq!(transition.to, "enrolled");
        }
        other => panic!("expected Enrolled, got {other:?}"),
    }
    let row = r.devices.iter().find(|d| d.slot_id == slot_id).expect("row");
    assert_eq!(row.state, "enrolled");
    assert_eq!(row.device_pk.as_deref(), Some(device_pk.as_str()));
    assert_eq!(row.cert_status, "valid");
    assert_eq!(row.provision_state, "valid");
    assert_eq!(row.history.len(), 2);
    assert_eq!(row.history[1].to, "enrolled");
}

#[test]
fn device_enrolled_for_wrong_state_sluffs() {
    let mut r = Roster::default();
    let row = new_placeholder("sensor", "rocker-sensor", "esp32-s3-xiao", "k", NOW);
    let slot_id = row.slot_id.clone();
    r.devices.push(row);
    let out = device_enrolled(&mut r, &slot_id, &"ab".repeat(32), NOW);
    assert!(matches!(out, EnrolOutcome::WrongState), "must not transition from placeholder");
    assert_eq!(r.devices[0].state, "placeholder");
    assert_eq!(r.devices[0].history.len(), 1);
    assert!(r.devices[0].device_pk.is_none());
    let out = device_enrolled(&mut r, "", &"ab".repeat(32), NOW);
    assert!(matches!(out, EnrolOutcome::MissingFields));
    let out = device_enrolled(&mut r, "no-such-slot", &"ab".repeat(32), NOW);
    assert!(matches!(out, EnrolOutcome::UnknownSlot));
    assert_eq!(r.devices.len(), 1);
}

#[test]
fn first_install_done_from_local_source_ignored() {
    let s = RosterSentant::new();
    assert_eq!(
        s.route(fnv1a_32("r2.composer.deploy.first_install.done"), false),
        RosterRoute::Ignore,
        "local-source first_install.done must not trigger Roster"
    );
}

#[test]
fn enrolment_of_unknown_slot_changes_nothing() {
    let mut r = Roster::default();
    r.devices.push(new_placeholder("sensor", "rocker-sensor", "esp32-s3-xiao", "k", NOW));
    let before = r.devices[0].state.clone();
    assert!(matches!(device_enrolled(&mut r, "no-such-slot", "ab", NOW), EnrolOutcome::UnknownSlot));
    assert!(matches!(device_enrolled(&mut r, "", "ab", NOW), EnrolOutcome::MissingFields));
    assert_eq!(r.devices[0].state, before);
}

// ── builder ─────────────────────────────────────────────────────────

#[test]
fn build_start_dispatches_plugin_call() {
    let mut b = BuilderSentant::new(7);
    let payload = br#"{"score":"x","target":"esp32-c6-dfr1117"}"#;
    let a = b.handle_event(fnv1a_32("r2.composer.build.start"), false, payload);
    match a {
        Some(RouterAction::PluginCall { plugin_id, command, data }) => {
            assert_eq!(plugin_id, 7);
            assert_eq!(command, CMD_START);
            assert_eq!(data, payload.to_vec());
        }
        other => panic!("expected PluginCall, got {other:?}"),
    }
    assert_eq!(b.state(), 1);
}

#[test]
fn builder_plugin_sourced_progress_rebroadcasts() {
    let mut b = BuilderSentant::new(7);
    let h = fnv1a_32("r2.composer.build.progress");
    match b.handle_event(h, true, b"{}") {
        Some(RouterAction::Rebroadcast { hash, payload }) => {
            assert_eq!(hash, h);
            assert_eq!(payload, b"{}".to_vec());
        }
        other => panic!("expected Rebroadcast, got {other:?}"),
    }
}

#[test]
fn builder_locally_sourced_progress_does_not_rebroadcast() {
    let mut b = BuilderSentant::new(7);
    let h = fnv1a_32("r2.composer.build.progress");
    assert!(b.handle_event(h, false, b"{}").is_none(), "must not re-broadcast our own emissions");
}

#[test]
fn builder_plugin_sourced_done_transitions_to_idle() {
    let mut b = BuilderSentant::new(7);
    b.handle_event(fnv1a_32("r2.composer.build.start"), false, b"{}");
    assert_eq!(b.state(), 1);
    b.handle_event(fnv1a_32("r2.composer.build.done"), true, b"{}");
    assert_eq!(b.state(), 0);
}

#[test]
fn plugin_sourced_error_transitions_to_idle() {
    let mut b = BuilderSentant::new(7);
    b.handle_event(fnv1a_32("r2.composer.build.start"), false, b"{}");
    b.handle_event(fnv1a_32("r2.composer.build.error"), true, b"{}");
    assert_eq!(b.state(), 0);
}

#[test]
fn ignores_unrelated_events() {
    let mut b = BuilderSentant::new(7);
    assert!(b.handle_event(fnv1a_32("r2.composer.unrelated"), false, b"{}").is_none());
    assert_eq!(b.state(), 0);
}

#[test]
fn builder_identity() {
    let b = BuilderSentant::new(7);
    assert_eq!(b.name(), "Builder");
    assert_eq!(b.class_hash(), fnv1a_32("ai.reality2.r2-composer.builder"));
    assert_eq!(b.subscriptions().len(), 4);
    assert_eq!(b.subscriptions()[0], fnv1a_32("r2.composer.build.start"));
}

// ── author ──────────────────────────────────────────────────────────

#[test]
fn author_prompt_dispatches_plugin_call() {
    let mut a = AuthorSentant::new(11);
    let payload = br#"{"message":"hi","canvas":{"board":"x","ensemble":"y"},"history":[]}"#;
    match a.handle_event(fnv1a_32("r2.composer.author.prompt"), false, payload) {
        Some(RouterAction::BriefAndStart { plugin_id }) => assert_eq!(plugin_id, 11),
        other => panic!("expected BriefAndStart, got {other:?}"),
    }
    assert_eq!(a.state(), 1);
}

#[test]
fn plugin_sourced_reply_rebroadcasts() {
    let mut a = AuthorSentant::new(11);
    let h = fnv1a_32("r2.composer.author.reply");
    match a.handle_event(h, true, b"{}") {
        Some(RouterAction::Rebroadcast { hash, .. }) => assert_eq!(hash, h),
        other => panic!("expected Rebroadcast, got {other:?}"),
    }
}

#[test]
fn locally_sourced_reply_does_not_rebroadcast() {
    let mut a = AuthorSentant::new(11);
    let h = fnv1a_32("r2.composer.author.reply");
    assert!(a.handle_event(h, false, b"{}").is_none(), "must not re-broadcast our own emissions");
}

#[test]
fn author_plugin_sourced_done_transitions_to_idle() {
    let mut a = AuthorSentant::new(11);
    a.handle_event(fnv1a_32("r2.composer.author.prompt"), false, b"{}");
    assert_eq!(a.state(), 1);
    a.handle_event(fnv1a_32("r2.composer.author.done"), true, b"{}");
    assert_eq!(a.state(), 0);
}

#[test]
fn author_templates_by_kind() {
    assert_eq!(template_name("apiary"), "author-apiary.md.tera");
    assert_eq!(template_name("board"), "author-board.md.tera");
    assert_eq!(template_name("plugin"), "author-plugin.md.tera");
    assert_eq!(template_name("flash"), "author-flash.md.tera");
    assert_eq!(template_name("provision"), "author-provision.md.tera");
    assert_eq!(template_name("chat"), "author-chat.md.tera");
    assert_eq!(template_name("future-thing"), "author-chat.md.tera");
}

#[test]
fn fallback_brief_carries_the_message() {
    assert_eq!(
        fallback_brief("the assistant", "add an OTA plugin"),
        "You are the assistant, assisting an operator using r2-composer.\nOperator says:\n\nadd an OTA plugin\n"
    );
}

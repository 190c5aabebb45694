use r2_composer::coordinator::{TcEmit, TcPayload, TestCoordinator};
use r2_composer::fnv::fnv1a_32;
use r2_composer::ledger::{
    copy_count, delivered_by, exactly_once, no_drop, no_duplicate, reconcile_correct_after_heal,
    DeliveryLedger, MsgKey,
};

const M: MsgKey = MsgKey { origin: 1, msg_id: 7 };

fn ledger(records: &[(&str, u32)]) -> DeliveryLedger {
    let mut l = DeliveryLedger::new();
    for (node, n) in records {
        for _ in 0..*n {
            l.record(M, node);
        }
    }
    l
}

#[test]
fn exactly_once_pass_and_fail() {
    let l = ledger(&[("B", 1), ("C", 1)]);
    assert!(exactly_once(&l, M, "B").is_ok());
    // zero copies fails
    assert_eq!(exactly_once(&l, M, "Z").unwrap_err().which, "exactly_once");
    // two copies fails
    let l2 = ledger(&[("B", 2)]);
    assert_eq!(exactly_once(&l2, M, "B").unwrap_err().which, "exactly_once");
}

#[test]
fn copy_count_bound() {
    let l = ledger(&[("B", 1)]);
    assert!(copy_count(&l, M, "B", 1).is_ok());
    let l2 = ledger(&[("B", 3)]);
    assert!(copy_count(&l2, M, "B", 1).is_err());
    assert!(copy_count(&l2, M, "B", 3).is_ok());
}

#[test]
fn no_duplicate_detects_relay_copy() {
    assert!(no_duplicate(&ledger(&[("B", 1), ("C", 1)]), M).is_ok());
    assert_eq!(no_duplicate(&ledger(&[("C", 2)]), M).unwrap_err().which, "no_duplicate");
}

#[test]
fn no_drop_over_destination_set() {
    let l = ledger(&[("B", 1), ("C", 1)]);
    assert!(no_drop(&l, M, &["B", "C"]).is_ok());
    assert_eq!(no_drop(&l, M, &["B", "C", "D"]).unwrap_err().which, "no_drop");
}

#[test]
fn delivered_by_and_nodes_with() {
    let l = ledger(&[("B", 1), ("C", 2)]);
    assert!(delivered_by(&l, M, "C").is_ok());
    assert!(delivered_by(&l, M, "Z").is_err());
    assert_eq!(l.nodes_with(M), vec!["B".to_string(), "C".to_string()]);
}

#[test]
fn reconcile_matches_baseline() {
    // baseline (no partition): B + C both delivered, once each.
    let baseline = ledger(&[("B", 1), ("C", 1)]);
    // healed run: same delivery set, no dup → reconciles.
    let healed_ok = ledger(&[("B", 1), ("C", 1)]);
    assert!(reconcile_correct_after_heal(&healed_ok, &baseline, M, &["B", "C"]).is_ok());
    // a drop at the seam (C missing) → fails.
    let dropped = ledger(&[("B", 1)]);
    assert_eq!(
        reconcile_correct_after_heal(&dropped, &baseline, M, &["B", "C"]).unwrap_err().which,
        "reconcile_correct_after_heal"
    );
    // a duplicate across the seam → fails (no_duplicate first).
    let duped = ledger(&[("B", 1), ("C", 2)]);
    assert_eq!(
        reconcile_correct_after_heal(&duped, &baseline, M, &["B", "C"]).unwrap_err().which,
        "no_duplicate"
    );
}

#[test]
fn failure_details_name_key_node_and_counts() {
    let l = ledger(&[("B", 2)]);
    assert_eq!(
        exactly_once(&l, M, "B").unwrap_err().detail,
        "MsgKey { origin: 1, msg_id: 7 } reached B 2× (want 1)"
    );
    assert_eq!(
        copy_count(&l, M, "B", 1).unwrap_err().detail,
        "MsgKey { origin: 1, msg_id: 7 } reached B 2× (max 1)"
    );
    assert_eq!(
        no_duplicate(&l, M).unwrap_err().detail,
        "MsgKey { origin: 1, msg_id: 7 } reached B 2× (want ≤1)"
    );
    assert_eq!(
        no_drop(&l, M, &["B", "Q"]).unwrap_err().detail,
        "MsgKey { origin: 1, msg_id: 7 } never reached Q"
    );
    assert_eq!(delivered_by(&l, M, "Q").unwrap_err().which, "delivered_by");
    let base = ledger(&[("B", 1), ("Q", 1)]);
    let run = ledger(&[("B", 1)]);
    assert_eq!(
        reconcile_correct_after_heal(&run, &base, M, &["B", "Q"]).unwrap_err().detail,
        "MsgKey { origin: 1, msg_id: 7 } at Q: post-heal delivered=false, baseline=true"
    );
}

#[test]
fn no_duplicate_reports_least_node() {
    let l = ledger(&[("Z", 3), ("A", 2), ("M", 1)]);
    let f = no_duplicate(&l, M).unwrap_err();
    assert_eq!(f.detail, "MsgKey { origin: 1, msg_id: 7 } reached A 2× (want ≤1)");
}

#[test]
fn record_counts_per_key_and_node() {
    let mut l = DeliveryLedger::new();
    let other = MsgKey::new(2, 7);
    l.record(M, "B");
    l.record(other, "B");
    l.record(M, "B");
    l.record(M, "A");
    assert_eq!(l.copy_count(M, "B"), 2);
    assert_eq!(l.copy_count(other, "B"), 1);
    assert_eq!(l.copy_count(M, "A"), 1);
    assert_eq!(l.copy_count(M, "C"), 0);
    assert!(!l.delivered_by(other, "A"));
    assert_eq!(l.nodes_with(M), vec!["A".to_string(), "B".to_string()]);
    assert_eq!(l.nodes_with(MsgKey::new(9, 9)), Vec::<String>::new());
}

#[test]
fn reconcile_with_itself_reduces_to_dedup() {
    let clean = ledger(&[("B", 1), ("C", 1)]);
    assert!(reconcile_correct_after_heal(&clean, &clean, M, &["B", "C", "D"]).is_ok());
    let dup = ledger(&[("B", 2)]);
    assert_eq!(
        reconcile_correct_after_heal(&dup, &dup, M, &["B"]).unwrap_err().which,
        "no_duplicate"
    );
}

fn h(name: &str) -> u32 {
    fnv1a_32(name)
}

fn payload() -> TcPayload {
    TcPayload { origin: None, msg_id: None, node: None, kind: None, dests: Vec::new(), max: None }
}

fn inject(tc: &mut TestCoordinator, origin: u64, msg_id: u64) -> Option<(u32, TcEmit)> {
    let p = TcPayload { origin: Some(origin), msg_id: Some(msg_id), ..payload() };
    tc.handle_event(h("r2.tn.inject"), &p)
}

fn report(tc: &mut TestCoordinator, node: &str, origin: u64, msg_id: u64) -> Option<(u32, TcEmit)> {
    let p = TcPayload {
        origin: Some(origin),
        msg_id: Some(msg_id),
        node: Some(node.to_string()),
        ..payload()
    };
    tc.handle_event(h("r2.tn.report"), &p)
}

#[test]
fn inject_emits_injected_and_enters_running() {
    let mut tc = TestCoordinator::new();
    let out = inject(&mut tc, 1, 7);
    assert_eq!(tc.state(), 1);
    assert!(tc.is_injected(M));
    let (hash, emit) = out.expect("one event");
    assert_eq!(hash, h("r2.tn.injected"));
    match emit {
        TcEmit::Injected { origin, msg_id } => {
            assert_eq!(origin, 1);
            assert_eq!(msg_id, 7);
        }
        other => panic!("unexpected {other:?}"),
    }
}

#[test]
fn report_records_and_emits_delivered() {
    let mut tc = TestCoordinator::new();
    inject(&mut tc, 1, 7);
    let out = report(&mut tc, "B", 1, 7);
    assert_eq!(tc.ledger().copy_count(M, "B"), 1);
    let (hash, emit) = out.expect("one event");
    assert_eq!(hash, h("r2.tn.delivered"));
    match emit {
        TcEmit::Delivered { node, copies, .. } => {
            assert_eq!(node, "B");
            assert_eq!(copies, 1);
        }
        other => panic!("unexpected {other:?}"),
    }
}

fn assert_event(tc: &mut TestCoordinator, p: TcPayload) -> (bool, String) {
    let (hash, emit) = tc.handle_event(h("r2.tn.assert"), &p).expect("one event");
    assert_eq!(hash, h("r2.tn.result"));
    match emit {
        TcEmit::Verdict { ok, detail, .. } => (ok, detail),
        other => panic!("unexpected {other:?}"),
    }
}

#[test]
fn assert_exactly_once_emits_result_pass_then_fail() {
    let mut tc = TestCoordinator::new();
    inject(&mut tc, 1, 7);
    report(&mut tc, "B", 1, 7);
    // B got exactly one → pass
    let (ok, _) = assert_event(
        &mut tc,
        TcPayload {
            kind: Some("exactly_once".into()),
            origin: Some(1),
            msg_id: Some(7),
            node: Some("B".into()),
            ..payload()
        },
    );
    assert!(ok);
    // C got none → fail (with detail)
    let (ok, detail) = assert_event(
        &mut tc,
        TcPayload {
            kind: Some("exactly_once".into()),
            origin: Some(1),
            msg_id: Some(7),
            node: Some("C".into()),
            ..payload()
        },
    );
    assert!(!ok);
    assert!(detail.contains("exactly_once") || !detail.is_empty());
}

#[test]
fn assert_no_drop_over_dests() {
    let mut tc = TestCoordinator::new();
    inject(&mut tc, 1, 7);
    report(&mut tc, "B", 1, 7);
    let (ok, _) = assert_event(
        &mut tc,
        TcPayload {
            kind: Some("no_drop".into()),
            origin: Some(1),
            msg_id: Some(7),
            dests: vec!["B".into(), "C".into()],
            ..payload()
        },
    );
    assert!(!ok); // C never delivered
}

#[test]
fn unknown_assert_kind_and_ignored_events() {
    let mut tc = TestCoordinator::new();
    let (ok, detail) = assert_event(&mut tc, TcPayload { kind: Some("bogus".into()), ..payload() });
    assert!(!ok);
    assert_eq!(detail, "unknown assert kind \"bogus\"");
    // an injection without msg_id changes nothing
    assert!(tc.handle_event(h("r2.tn.inject"), &TcPayload { origin: Some(1), ..payload() }).is_none());
    assert_eq!(tc.state(), 0);
    // an unrelated hash is ignored
    assert!(tc.handle_event(h("r2.tn.other"), &payload()).is_none());
    assert_eq!(tc.subscriptions(), vec![h("r2.tn.inject"), h("r2.tn.report"), h("r2.tn.assert")]);
    assert_eq!(tc.name(), "TestCoordinator");
}

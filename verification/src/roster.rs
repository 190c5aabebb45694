//! Apiary device roster: the per-device rows and the lifecycle state
//! machine (placeholder → built → flashed_pending_pk → enrolled →
//! reachable / unreachable / revoked / retired → PURGED).

use vstd::prelude::*;

use crate::text::{chars_of, push_all, str_eq, string_from_chars};

verus! {

/// One entry of a row's append-only audit trail.
#[derive(Debug, Clone)]
pub struct HistoryEntry {
    pub ts: String,
    pub event: String,
    pub from: String,
    pub to: String,
    pub detail: String,
}

/// One USB flash of a device.
#[derive(Debug, Clone)]
pub struct FlashHistoryEntry {
    pub flashed_at: String,
    pub port: String,
    pub mac_at_flash: String,
    pub artefact_path: String,
    pub artefact_sha256: String,
    pub esptool_version: String,
    pub duration_ms: u64,
}

/// One device slot; `slot_id` is the immutable primary key.
#[derive(Debug, Clone)]
pub struct DeviceRow {
    pub slot_id: String,
    pub role: String,
    pub ensemble: String,
    pub host: String,
    pub name_alias: String,
    /// Lifecycle state.
    pub state: String,
    /// WiFi-credential health.
    pub provision_state: String,
    /// Certificate validity.
    pub cert_status: String,
    /// Ed25519 public key, hex, once known.
    pub device_pk: Option<String>,
    pub rbid: Option<String>,
    pub mac_at_flash: Option<String>,
    pub firmware_sha: Option<String>,
    pub firmware_ver: Option<String>,
    pub enrolled: String,
    pub last_seen: String,
    pub history: Vec<HistoryEntry>,
    pub flash_history: Vec<FlashHistoryEntry>,
}

/// The roster file's root: the list of device rows.
#[derive(Debug, Clone)]
pub struct Roster {
    pub devices: Vec<DeviceRow>,
}

impl Default for Roster {
    fn default() -> (r: Self)
        ensures
            r.devices@.len() == 0,
    {
        Roster { devices: Vec::new() }
    }
}

/// The default for `provision_state` and `cert_status`.
pub fn default_unknown() -> (s: String)
    ensures
        s@ == "unknown"@,
{
    "unknown".to_owned()
}

/// The states a row may move to from `from`; a state missing from the
/// table may move nowhere.
pub open spec fn allowed_targets(from: Seq<char>) -> Seq<Seq<char>> {
    if from == ""@ {
        seq!["placeholder"@]
    } else if from == "placeholder"@ {
        seq!["built"@, "retired"@, "PURGED"@]
    } else if from == "built"@ {
        seq!["flashed_pending_pk"@, "retired"@, "PURGED"@]
    } else if from == "flashed_pending_pk"@ {
        seq!["enrolled"@, "retired"@, "PURGED"@]
    } else if from == "enrolled"@ {
        seq!["reachable"@, "unreachable"@, "revoked"@, "retired"@]
    } else if from == "reachable"@ {
        seq!["unreachable"@, "revoked"@, "retired"@]
    } else if from == "unreachable"@ {
        seq!["reachable"@, "revoked"@, "retired"@]
    } else if from == "revoked"@ {
        seq!["retired"@, "PURGED"@]
    } else if from == "retired"@ {
        seq!["PURGED"@]
    } else {
        Seq::empty()
    }
}

/// The normative transition table.
pub open spec fn valid_transition(from: Seq<char>, to: Seq<char>) -> bool {
    allowed_targets(from).contains(to)
}

/// Whether `to` is one of the listed targets.
fn one_of(to: &str, a: &str, b: &str, c: &str, d: &str, n: usize) -> (r: bool)
    requires
        1 <= n <= 4,
    ensures
        r == ((to@ == a@) || (n >= 2 && to@ == b@) || (n >= 3 && to@ == c@) || (n >= 4 && to@
            == d@)),
{
    str_eq(to, a) || (n >= 2 && str_eq(to, b)) || (n >= 3 && str_eq(to, c)) || (n >= 4 && str_eq(
        to,
        d,
    ))
}

proof fn lemma_contains_small(s: Seq<Seq<char>>, to: Seq<char>)
    requires
        1 <= s.len() <= 4,
    ensures
        s.contains(to) == ((to == s[0]) || (s.len() >= 2 && to == s[1]) || (s.len() >= 3 && to
            == s[2]) || (s.len() >= 4 && to == s[3])),
{
    if to == s[0] {
        assert(s.contains(to));
    } else if s.len() >= 2 && to == s[1] {
        assert(s.contains(to));
    } else if s.len() >= 3 && to == s[2] {
        assert(s.contains(to));
    } else if s.len() >= 4 && to == s[3] {
        assert(s.contains(to));
    }
}

/// Is `from → to` in the transition table?
pub fn is_valid_transition(from: &str, to: &str) -> (r: bool)
    ensures
        r == valid_transition(from@, to@),
{
    let ghost t = allowed_targets(from@);
    if str_eq(from, "") {
        proof { lemma_contains_small(t, to@); }
        one_of(to, "placeholder", "", "", "", 1)
    } else if str_eq(from, "placeholder") {
        proof { lemma_contains_small(t, to@); }
        one_of(to, "built", "retired", "PURGED", "", 3)
    } else if str_eq(from, "built") {
        proof { lemma_contains_small(t, to@); }
        one_of(to, "flashed_pending_pk", "retired", "PURGED", "", 3)
    } else if str_eq(from, "flashed_pending_pk") {
        proof { lemma_contains_small(t, to@); }
        one_of(to, "enrolled", "retired", "PURGED", "", 3)
    } else if str_eq(from, "enrolled") {
        proof { lemma_contains_small(t, to@); }
        one_of(to, "reachable", "unreachable", "revoked", "retired", 4)
    } else if str_eq(from, "reachable") {
        proof { lemma_contains_small(t, to@); }
        one_of(to, "unreachable", "revoked", "retired", "", 3)
    } else if str_eq(from, "unreachable") {
        proof { lemma_contains_small(t, to@); }
        one_of(to, "reachable", "revoked", "retired", "", 3)
    } else if str_eq(from, "revoked") {
        proof { lemma_contains_small(t, to@); }
        one_of(to, "retired", "PURGED", "", "", 2)
    } else if str_eq(from, "retired") {
        proof { lemma_contains_small(t, to@); }
        one_of(to, "PURGED", "", "", "", 1)
    } else {
        false
    }
}

/// The error text for a refused transition.
pub open spec fn refusal_message(from: Seq<char>, to: Seq<char>) -> Seq<char> {
    "E_ROSTER_TRANSITION_REFUSED: "@ + from + " → "@ + to + " is not in the transition table"@
}

/// Everything but `state` and `history` is the same in both rows.
pub open spec fn same_identity(a: DeviceRow, b: DeviceRow) -> bool {
    &&& a.slot_id == b.slot_id
    &&& a.role == b.role
    &&& a.ensemble == b.ensemble
    &&& a.host == b.host
    &&& a.name_alias == b.name_alias
    &&& a.provision_state == b.provision_state
    &&& a.cert_status == b.cert_status
    &&& a.device_pk == b.device_pk
    &&& a.rbid == b.rbid
    &&& a.mac_at_flash == b.mac_at_flash
    &&& a.firmware_sha == b.firmware_sha
    &&& a.firmware_ver == b.firmware_ver
    &&& a.enrolled == b.enrolled
    &&& a.last_seen == b.last_seen
    &&& a.flash_history == b.flash_history
}

/// `e` records the move `from → to` by `event` at `ts`.
pub open spec fn history_entry_is(
    e: HistoryEntry,
    ts: Seq<char>,
    event: Seq<char>,
    from: Seq<char>,
    to: Seq<char>,
    detail: Seq<char>,
) -> bool {
    e.ts@ == ts && e.event@ == event && e.from@ == from && e.to@ == to && e.detail@ == detail
}

/// `new` is `old` moved to state `to` with one history entry appended.
pub open spec fn transitioned(
    old: DeviceRow,
    new: DeviceRow,
    to: Seq<char>,
    event: Seq<char>,
    detail: Seq<char>,
    ts: Seq<char>,
) -> bool {
    &&& same_identity(old, new)
    &&& new.state@ == to
    &&& new.history@.len() == old.history@.len() + 1
    &&& new.history@.take(old.history@.len() as int) == old.history@
    &&& history_entry_is(new.history@.last(), ts, event, old.state@, to, detail)
}

/// Moves `row` to state `to` and appends a history entry, if the table
/// allows it; otherwise refuses and leaves the row untouched.
pub fn apply_transition(row: &mut DeviceRow, to: &str, event: &str, detail: &str, ts: &str) -> (r:
    Result<(), String>)
    ensures
        r is Ok <==> valid_transition(old(row).state@, to@),
        r is Ok ==> transitioned(*old(row), *final(row), to@, event@, detail@, ts@),
        r matches Err(msg) ==> *final(row) == *old(row) && msg@ == refusal_message(
            old(row).state@,
            to@,
        ),
{
    if !is_valid_transition(row.state.as_str(), to) {
        let mut m: Vec<char> = chars_of("E_ROSTER_TRANSITION_REFUSED: ");
        push_all(&mut m, &chars_of(row.state.as_str()));
        push_all(&mut m, &chars_of(" → "));
        push_all(&mut m, &chars_of(to));
        push_all(&mut m, &chars_of(" is not in the transition table"));
        return Err(string_from_chars(&m));
    }
    let entry = HistoryEntry {
        ts: ts.to_owned(),
        event: event.to_owned(),
        from: row.state.clone(),
        to: to.to_owned(),
        detail: detail.to_owned(),
    };
    row.state = to.to_owned();
    row.history.push(entry);
    assert(row.history@.take(old(row).history@.len() as int) =~= old(row).history@);
    Ok(())
}

/// The index of the first row with `slot_id`, if any.
pub open spec fn first_slot_index(devices: Seq<DeviceRow>, slot_id: Seq<char>) -> Option<int> {
    if exists|i: int| 0 <= i < devices.len() && devices[i].slot_id@ == slot_id {
        Some(
            choose|i: int|
                0 <= i < devices.len() && devices[i].slot_id@ == slot_id && forall|j: int|
                    0 <= j < i ==> devices[j].slot_id@ != slot_id,
        )
    } else {
        None
    }
}

/// The position of the first row with `slot_id`.
pub fn find_index(roster: &Roster, slot_id: &str) -> (r: Option<usize>)
    ensures
        match r {
            Some(i) => i < roster.devices@.len() && roster.devices@[i as int].slot_id@ == slot_id@
                && forall|j: int| 0 <= j < i ==> roster.devices@[j].slot_id@ != slot_id@,
            None => forall|j: int|
                0 <= j < roster.devices@.len() ==> roster.devices@[j].slot_id@ != slot_id@,
        },
{
    let mut i: usize = 0;
    while i < roster.devices.len()
        invariant
            i <= roster.devices@.len(),
            forall|j: int| 0 <= j < i ==> roster.devices@[j].slot_id@ != slot_id@,
        decreases roster.devices@.len() - i,
    {
        if str_eq(roster.devices[i].slot_id.as_str(), slot_id) {
            return Some(i);
        }
        i = i + 1;
    }
    None
}

/// Finds a row by `slot_id` for in-place update.
pub fn find_mut<'a>(roster: &'a mut Roster, slot_id: &str) -> (r: Option<&'a mut DeviceRow>)
    ensures
        match r {
            Some(row) => exists|i: int|
                0 <= i < old(roster).devices@.len() && old(roster).devices@[i].slot_id@ == slot_id@
                    && (forall|j: int| 0 <= j < i ==> old(roster).devices@[j].slot_id@ != slot_id@)
                    && *row == old(roster).devices@[i] && final(roster).devices@ == old(
                    roster,
                ).devices@.update(i, *final(row)),
            None => (forall|j: int|
                0 <= j < old(roster).devices@.len() ==> old(roster).devices@[j].slot_id@
                    != slot_id@) && *final(roster) == *old(roster),
        },
{
    match find_index(roster, slot_id) {
        Some(i) => Some(&mut roster.devices[i]),
        None => None,
    }
}


/// A lowercase hex digit character.
pub open spec fn is_lower_hex_char(c: char) -> bool {
    ('0' <= c && c <= '9') || ('a' <= c && c <= 'f')
}

/// The hyphenated lowercase text of a version-4 UUID:
/// `xxxxxxxx-xxxx-4xxx-xxxx-xxxxxxxxxxxx`.
pub open spec fn uuid_v4_text(s: Seq<char>) -> bool {
    &&& s.len() == 36
    &&& forall|i: int|
        0 <= i < 36 ==> if i == 8 || i == 13 || i == 18 || i == 23 {
            s[i] == '-'
        } else {
            is_lower_hex_char(#[trigger] s[i])
        }
    &&& s[14] == '4'
}

/// A fresh random slot id: `uuid::Uuid::new_v4().to_string()`, which the
/// `uuid` crate renders hyphenated and lowercase with version nibble 4.
/// Which id comes out is left open.
#[verifier::external_body]
fn new_slot_id() -> (s: String)
    ensures
        uuid_v4_text(s@),
{
    uuid::Uuid::new_v4().to_string()
}

/// A freshly declared slot: state `placeholder`, one history entry for
/// the `"" → placeholder` move, health fields `unknown`, no identity yet.
pub open spec fn is_new_placeholder(
    row: DeviceRow,
    role: Seq<char>,
    ensemble: Seq<char>,
    host: Seq<char>,
    name_alias: Seq<char>,
    now: Seq<char>,
) -> bool {
    &&& uuid_v4_text(row.slot_id@)
    &&& row.role@ == role
    &&& row.ensemble@ == ensemble
    &&& row.host@ == host
    &&& row.name_alias@ == name_alias
    &&& row.state@ == "placeholder"@
    &&& row.provision_state@ == "unknown"@
    &&& row.cert_status@ == "unknown"@
    &&& row.device_pk is None
    &&& row.rbid is None
    &&& row.mac_at_flash is None
    &&& row.firmware_sha is None
    &&& row.firmware_ver is None
    &&& row.enrolled@ == now
    &&& row.last_seen@ == Seq::<char>::empty()
    &&& row.history@.len() == 1
    &&& history_entry_is(row.history@[0], now, "slot.created"@, ""@, "placeholder"@, "operator declared"@)
    &&& row.flash_history@.len() == 0
}

/// Creates a new slot in state `placeholder`; the caller appends it to
/// the roster.
pub fn new_placeholder(role: &str, ensemble: &str, host: &str, name_alias: &str, now: &str) -> (row:
    DeviceRow)
    ensures
        is_new_placeholder(row, role@, ensemble@, host@, name_alias@, now@),
{
    let mut row = DeviceRow {
        slot_id: new_slot_id(),
        role: role.to_owned(),
        ensemble: ensemble.to_owned(),
        host: host.to_owned(),
        name_alias: name_alias.to_owned(),
        state: "".to_owned(),
        provision_state: "unknown".to_owned(),
        cert_status: "unknown".to_owned(),
        device_pk: None,
        rbid: None,
        mac_at_flash: None,
        firmware_sha: None,
        firmware_ver: None,
        enrolled: now.to_owned(),
        last_seen: String::new(),
        history: Vec::new(),
        flash_history: Vec::new(),
    };
    proof {
        assert(allowed_targets(""@)[0] == "placeholder"@);
        assert(valid_transition(row.state@, "placeholder"@));
    }
    let _ = apply_transition(&mut row, "placeholder", "slot.created", "operator declared", now);
    assert(row.history@[0] == row.history@.last());
    row
}

/// The first-install and enrolment path: `placeholder → built →
/// flashed_pending_pk → enrolled` is allowed step by step.
pub proof fn law_install_path_allowed()
    ensures
        valid_transition(""@, "placeholder"@),
        valid_transition("placeholder"@, "built"@),
        valid_transition("built"@, "flashed_pending_pk"@),
        valid_transition("flashed_pending_pk"@, "enrolled"@),
{
    reveal_strlit("");
    reveal_strlit("placeholder");
    reveal_strlit("built");
    reveal_strlit("flashed_pending_pk");
    reveal_strlit("enrolled");
    assert(allowed_targets(""@)[0] == "placeholder"@);
    assert(allowed_targets("placeholder"@)[0] == "built"@);
    assert(allowed_targets("built"@)[0] == "flashed_pending_pk"@);
    assert(allowed_targets("flashed_pending_pk"@)[0] == "enrolled"@);
}

/// `PURGED` is a sink: no state can follow it.
pub proof fn law_purged_is_sink(to: Seq<char>)
    ensures
        !valid_transition("PURGED"@, to),
{
    reveal_strlit("");
    reveal_strlit("PURGED");
    reveal_strlit("placeholder");
    reveal_strlit("built");
    reveal_strlit("flashed_pending_pk");
    reveal_strlit("enrolled");
    reveal_strlit("reachable");
    reveal_strlit("unreachable");
    reveal_strlit("revoked");
    reveal_strlit("retired");
    let p = "PURGED"@;
    assert(p.len() == 6);
    assert(p != ""@ && p != "placeholder"@ && p != "built"@ && p != "flashed_pending_pk"@);
    assert(p != "enrolled"@ && p != "reachable"@ && p != "unreachable"@);
    assert(p[0] == 'P' && "revoked"@[0] == 'r' && "retired"@[0] == 'r');
    assert(p != "revoked"@ && p != "retired"@);
    assert(allowed_targets(p) =~= Seq::<Seq<char>>::empty());
}

/// Nothing leads back to the empty state, and only the empty state leads
/// to `placeholder`: a slot is declared once.
pub proof fn law_placeholder_only_from_nothing(from: Seq<char>, to: Seq<char>)
    ensures
        !valid_transition(from, ""@),
        valid_transition(from, "placeholder"@) ==> from == ""@,
{
    reveal_strlit("");
    reveal_strlit("PURGED");
    reveal_strlit("placeholder");
    reveal_strlit("built");
    reveal_strlit("flashed_pending_pk");
    reveal_strlit("enrolled");
    reveal_strlit("reachable");
    reveal_strlit("unreachable");
    reveal_strlit("revoked");
    reveal_strlit("retired");
    let t = allowed_targets(from);
    assert("placeholder"@.len() == 11 && "unreachable"@.len() == 11);
    assert("placeholder"@[0] == 'p' && "unreachable"@[0] == 'u');
    if t.contains(""@) {
        let k = choose|k: int| 0 <= k < t.len() && t[k] == ""@;
        assert(t[k].len() == 0);
    }
    if t.contains("placeholder"@) && from != ""@ {
        let k = choose|k: int| 0 <= k < t.len() && t[k] == "placeholder"@;
        assert(t[k] == "placeholder"@);
    }
}

/// A flashed device awaiting its key cannot go back to `built` without a
/// fresh flash, and a placeholder cannot skip ahead to `enrolled`.
pub proof fn law_no_regress_or_skip()
    ensures
        !valid_transition("flashed_pending_pk"@, "built"@),
        !valid_transition("placeholder"@, "enrolled"@),
        !valid_transition("placeholder"@, "flashed_pending_pk"@),
{
    reveal_strlit("");
    reveal_strlit("PURGED");
    reveal_strlit("placeholder");
    reveal_strlit("built");
    reveal_strlit("flashed_pending_pk");
    reveal_strlit("enrolled");
    reveal_strlit("retired");
    assert("flashed_pending_pk"@.len() == 18 && "placeholder"@.len() == 11 && "built"@.len() == 5);
    assert(""@.len() == 0 && "enrolled"@.len() == 8 && "retired"@.len() == 7 && "PURGED"@.len() == 6);
    assert("flashed_pending_pk"@ != ""@ && "flashed_pending_pk"@ != "placeholder"@);
    assert("flashed_pending_pk"@ != "built"@);
    assert("placeholder"@ != ""@);
    assert("built"@ != "enrolled"@ && "built"@ != "retired"@ && "built"@ != "PURGED"@);
    assert("enrolled"@ != "built"@ && "enrolled"@ != "retired"@ && "enrolled"@ != "PURGED"@);
    assert("flashed_pending_pk"@ != "retired"@ && "flashed_pending_pk"@ != "PURGED"@);
    assert("enrolled"@[0] == 'e' && "retired"@[0] == 'r' && "built"@[0] == 'b');
    let t1 = allowed_targets("flashed_pending_pk"@);
    if t1.contains("built"@) {
        let k = choose|k: int| 0 <= k < t1.len() && t1[k] == "built"@;
        assert(t1[k] == "built"@);
    }
    let t2 = allowed_targets("placeholder"@);
    if t2.contains("enrolled"@) {
        let k = choose|k: int| 0 <= k < t2.len() && t2[k] == "enrolled"@;
        assert(t2[k] == "enrolled"@);
    }
    if t2.contains("flashed_pending_pk"@) {
        let k = choose|k: int| 0 <= k < t2.len() && t2[k] == "flashed_pending_pk"@;
        assert(t2[k] == "flashed_pending_pk"@);
    }
}

/// The literal state names are pairwise different.
proof fn lemma_state_names_differ()
    ensures
        ""@.len() == 0,
        "placeholder"@.len() == 11 && "placeholder"@[0] == 'p',
        "built"@.len() == 5,
        "flashed_pending_pk"@.len() == 18,
        "enrolled"@.len() == 8,
        "reachable"@.len() == 9,
        "unreachable"@.len() == 11 && "unreachable"@[0] == 'u',
        "revoked"@.len() == 7 && "revoked"@[2] == 'v',
        "retired"@.len() == 7 && "retired"@[2] == 't',
        "PURGED"@.len() == 6,
{
    reveal_strlit("");
    reveal_strlit("placeholder");
    reveal_strlit("built");
    reveal_strlit("flashed_pending_pk");
    reveal_strlit("enrolled");
    reveal_strlit("reachable");
    reveal_strlit("unreachable");
    reveal_strlit("revoked");
    reveal_strlit("retired");
    reveal_strlit("PURGED");
}

/// The transition table, row by row: from each listed state exactly the
/// listed targets are allowed (a reachable or enrolled device can be
/// revoked, a revoked one only retired or purged), and a state missing
/// from the table allows nothing.
pub proof fn law_transition_table(from: Seq<char>, to: Seq<char>)
    ensures
        valid_transition(""@, to) <==> to == "placeholder"@,
        valid_transition("placeholder"@, to) <==> (to == "built"@ || to == "retired"@ || to == "PURGED"@),
        valid_transition("built"@, to) <==> (to == "flashed_pending_pk"@ || to == "retired"@ || to == "PURGED"@),
        valid_transition("flashed_pending_pk"@, to) <==> (to == "enrolled"@ || to == "retired"@ || to == "PURGED"@),
        valid_transition("enrolled"@, to) <==> (to == "reachable"@ || to == "unreachable"@ || to == "revoked"@
            || to == "retired"@),
        valid_transition("reachable"@, to) <==> (to == "unreachable"@ || to == "revoked"@ || to == "retired"@),
        valid_transition("unreachable"@, to) <==> (to == "reachable"@ || to == "revoked"@ || to == "retired"@),
        valid_transition("revoked"@, to) <==> (to == "retired"@ || to == "PURGED"@),
        valid_transition("retired"@, to) <==> to == "PURGED"@,
        (from != ""@ && from != "placeholder"@ && from != "built"@ && from != "flashed_pending_pk"@ && from
            != "enrolled"@ && from != "reachable"@ && from != "unreachable"@ && from != "revoked"@ && from
            != "retired"@) ==> !valid_transition(from, to),
{
    lemma_state_names_differ();
    assert("placeholder"@ != "unreachable"@);
    assert("revoked"@ != "retired"@);
    lemma_contains_small(allowed_targets(""@), to);
    lemma_contains_small(allowed_targets("placeholder"@), to);
    lemma_contains_small(allowed_targets("built"@), to);
    lemma_contains_small(allowed_targets("flashed_pending_pk"@), to);
    lemma_contains_small(allowed_targets("enrolled"@), to);
    lemma_contains_small(allowed_targets("reachable"@), to);
    lemma_contains_small(allowed_targets("unreachable"@), to);
    lemma_contains_small(allowed_targets("revoked"@), to);
    lemma_contains_small(allowed_targets("retired"@), to);
    assert(allowed_targets(from).len() == 0 ==> !allowed_targets(from).contains(to));
}

} // verus!

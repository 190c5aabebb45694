//! The roster sentant's decisions: which events it handles, and what each
//! does to the active apiary's roster (declare a slot, record a USB
//! first-install, record an enrolment). Loading and saving the roster and
//! publishing the resulting events is left to the host.

use vstd::prelude::*;

use crate::bridge::registry;
use crate::fnv::{fnv1a_32, str_hash};
use crate::roster::{
    apply_transition, find_index, is_new_placeholder, new_placeholder, transitioned, valid_transition,
    DeviceRow, Roster,
};
use crate::text::{chars_of, push_str, str_eq, string_from_chars};

verus! {

/// One state change, as published in a `device.transition` event.
#[derive(Debug, Clone)]
pub struct Transition {
    pub from: String,
    pub to: String,
    pub detail: String,
}

/// `t` announces the move `from → to` with `detail`.
pub open spec fn transition_is(t: Transition, from: Seq<char>, to: Seq<char>, detail: Seq<char>) -> bool {
    t.from@ == from && t.to@ == to && t.detail@ == detail
}

/// Which handler an event goes to.
#[derive(Debug, Clone, Copy, PartialEq, Eq, Structural)]
pub enum RosterRoute {
    SlotCreate,
    List,
    FirstInstallDone,
    DeviceEnrolled,
    Ignore,
}

/// The hashes of the events the roster sentant consumes and emits: slot
/// create, list, entry, transition, first-install done, enrolled.
pub open spec fn roster_event_hashes() -> Seq<u32> {
    seq![
        str_hash("r2.composer.device.slot.create"),
        str_hash("r2.composer.device.list"),
        str_hash("r2.composer.device.entry"),
        str_hash("r2.composer.device.transition"),
        str_hash("r2.composer.deploy.first_install.done"),
        str_hash("r2.composer.device.enrolled"),
    ]
}

/// The roster sentant: the hashes of the events it consumes and emits.
pub struct RosterSentant {
    slot_create_hash: u32,
    list_hash: u32,
    entry_hash: u32,
    transition_hash: u32,
    first_install_done_hash: u32,
    device_enrolled_hash: u32,
}

impl RosterSentant {
    #[verifier::type_invariant]
    spec fn well_formed(self) -> bool {
        &&& self.slot_create_hash == str_hash("r2.composer.device.slot.create")
        &&& self.list_hash == str_hash("r2.composer.device.list")
        &&& self.entry_hash == str_hash("r2.composer.device.entry")
        &&& self.transition_hash == str_hash("r2.composer.device.transition")
        &&& self.first_install_done_hash == str_hash("r2.composer.deploy.first_install.done")
        &&& self.device_enrolled_hash == str_hash("r2.composer.device.enrolled")
    }

    /// The hashes the sentant holds, in order: slot create, list, entry,
    /// transition, first-install done, enrolled.
    pub closed spec fn hashes(self) -> Seq<u32> {
        seq![
            self.slot_create_hash,
            self.list_hash,
            self.entry_hash,
            self.transition_hash,
            self.first_install_done_hash,
            self.device_enrolled_hash,
        ]
    }

    /// Builds the sentant, hashing its event names.
    pub fn new() -> (s: Self)
        ensures
            s.hashes() == roster_event_hashes(),
    {
        let reg = registry();
        let a = reg.hash_of("r2.composer.device.slot.create");
        let b = reg.hash_of("r2.composer.device.list");
        let c = reg.hash_of("r2.composer.device.entry");
        let d = reg.hash_of("r2.composer.device.transition");
        let e = reg.hash_of("r2.composer.deploy.first_install.done");
        let f = reg.hash_of("r2.composer.device.enrolled");
        RosterSentant {
            slot_create_hash: a.unwrap(),
            list_hash: b.unwrap(),
            entry_hash: c.unwrap(),
            transition_hash: d.unwrap(),
            first_install_done_hash: e.unwrap(),
            device_enrolled_hash: f.unwrap(),
        }
    }

    /// Routes an event: slot creation, listing and enrolment from any
    /// source; a first-install completion only when a plugin sent it (the
    /// deploy sentant's own re-broadcast is not handled twice).
    pub fn route(&self, hash: u32, from_plugin: bool) -> (r: RosterRoute)
        ensures
            r == if hash == str_hash("r2.composer.device.slot.create") {
                RosterRoute::SlotCreate
            } else if hash == str_hash("r2.composer.device.list") {
                RosterRoute::List
            } else if hash == str_hash("r2.composer.deploy.first_install.done") && from_plugin {
                RosterRoute::FirstInstallDone
            } else if hash == str_hash("r2.composer.device.enrolled") {
                RosterRoute::DeviceEnrolled
            } else {
                RosterRoute::Ignore
            },
    {
        proof {
            use_type_invariant(self);
        }
        if hash == self.slot_create_hash {
            RosterRoute::SlotCreate
        } else if hash == self.list_hash {
            RosterRoute::List
        } else if hash == self.first_install_done_hash && from_plugin {
            RosterRoute::FirstInstallDone
        } else if hash == self.device_enrolled_hash {
            RosterRoute::DeviceEnrolled
        } else {
            RosterRoute::Ignore
        }
    }

    /// The hash rows are published under (`device.entry`).
    pub fn entry_hash(&self) -> (h: u32)
        ensures
            h == str_hash("r2.composer.device.entry"),
    {
        proof {
            use_type_invariant(self);
        }
        self.entry_hash
    }

    /// The hash state changes are published under (`device.transition`).
    pub fn transition_hash(&self) -> (h: u32)
        ensures
            h == str_hash("r2.composer.device.transition"),
    {
        proof {
            use_type_invariant(self);
        }
        self.transition_hash
    }

    /// The state id (this sentant has one state).
    pub fn state(&self) -> (s: u32)
        ensures
            s == 0,
    {
        0
    }

    /// The class hash naming this sentant.
    pub fn class_hash(&self) -> (h: u32)
        ensures
            h == str_hash("ai.reality2.composer.sentant.roster"),
    {
        fnv1a_32("ai.reality2.composer.sentant.roster")
    }

    /// The sentant's name.
    pub fn name(&self) -> (s: &'static str)
        ensures
            s@ == "Roster"@,
    {
        "Roster"
    }

    /// The events this sentant consumes.
    pub fn subscriptions(&self) -> (v: Vec<u32>)
        ensures
            v@ == seq![
                str_hash("r2.composer.device.slot.create"),
                str_hash("r2.composer.device.list"),
                str_hash("r2.composer.deploy.first_install.done"),
                str_hash("r2.composer.device.enrolled"),
            ],
    {
        proof {
            use_type_invariant(self);
        }
        let mut v: Vec<u32> = Vec::new();
        v.push(self.slot_create_hash);
        v.push(self.list_hash);
        v.push(self.first_install_done_hash);
        v.push(self.device_enrolled_hash);
        v
    }
}

/// Declares a slot: refused (roster unchanged) when the role, ensemble or
/// host is empty; otherwise a new placeholder row is appended and its
/// position returned.
pub fn slot_create(
    roster: &mut Roster,
    role: &str,
    ensemble: &str,
    host: &str,
    alias: &str,
    now: &str,
) -> (r: Option<usize>)
    requires
        old(roster).devices@.len() < usize::MAX,
    ensures
        (role@.len() == 0 || ensemble@.len() == 0 || host@.len() == 0) ==> (r is None && *final(roster) == *old(roster)),
        !(role@.len() == 0 || ensemble@.len() == 0 || host@.len() == 0) ==> (r matches Some(i) && i
            == old(roster).devices@.len() && final(roster).devices@.len() == i + 1
            && final(roster).devices@.take(i as int) == old(roster).devices@ && is_new_placeholder(
            final(roster).devices@[i as int],
            role@,
            ensemble@,
            host@,
            alias@,
            now@,
        )),
{
    if role.is_empty() || ensemble.is_empty() || host.is_empty() {
        return None;
    }
    let row = new_placeholder(role, ensemble, host, alias, now);
    let i = roster.devices.len();
    roster.devices.push(row);
    assert(roster.devices@.take(i as int) =~= old(roster).devices@);
    Some(i)
}

/// What a first-install completion did.
#[derive(Debug, Clone)]
pub enum FirstInstallOutcome {
    /// The event named no slot.
    MissingSlotId,
    /// No row has that slot id.
    UnknownSlot,
    /// The row at `index` moved through `transitions` and is now in
    /// `new_state`.
    Applied { index: usize, transitions: Vec<Transition>, new_state: String },
}

/// The history detail of the synthetic `placeholder → built` step.
pub open spec fn built_detail(port: Seq<char>) -> Seq<char> {
    "operator-supplied artefact via first_install.done (port "@ + port + ")"@
}

/// The detail of the `built → flashed_pending_pk` step.
pub open spec fn flashed_detail(port: Seq<char>) -> Seq<char> {
    "flashed via USB on "@ + port
}

/// The first row of `devices` with `slot_id` is at `i`.
pub open spec fn first_slot(devices: Seq<DeviceRow>, slot_id: Seq<char>, i: int) -> bool {
    &&& 0 <= i < devices.len()
    &&& devices[i].slot_id@ == slot_id
    &&& forall|j: int| 0 <= j < i ==> (#[trigger] devices[j]).slot_id@ != slot_id
}

/// `new` is `old` after a first-install completion on port `port` at `now`:
/// a placeholder moves to `built` and then to `flashed_pending_pk`, a
/// built row moves to `flashed_pending_pk`, any other row stays as is.
pub open spec fn flashed_row(old: DeviceRow, new: DeviceRow, port: Seq<char>, now: Seq<char>, ts: Seq<Transition>) -> bool {
    if old.state@ == "placeholder"@ {
        &&& exists|mid: DeviceRow|
            transitioned(old, mid, "built"@, "built"@, built_detail(port), now) && transitioned(
                mid,
                new,
                "flashed_pending_pk"@,
                "flashed_usb"@,
                flashed_detail(port),
                now,
            )
        &&& ts.len() == 2
        &&& transition_is(ts[0], "placeholder"@, "built"@, "operator-supplied artefact"@)
        &&& transition_is(ts[1], "built"@, "flashed_pending_pk"@, flashed_detail(port))
    } else if old.state@ == "built"@ {
        &&& transitioned(old, new, "flashed_pending_pk"@, "flashed_usb"@, flashed_detail(port), now)
        &&& ts.len() == 1
        &&& transition_is(ts[0], "built"@, "flashed_pending_pk"@, flashed_detail(port))
    } else {
        new == old && ts.len() == 0
    }
}

fn concat2(a: &str, b: &str) -> (s: String)
    ensures
        s@ == a@ + b@,
{
    let mut v: Vec<char> = chars_of(a);
    push_str(&mut v, b);
    string_from_chars(&v)
}

fn concat3(a: &str, b: &str, c: &str) -> (s: String)
    ensures
        s@ == a@ + b@ + c@,
{
    let mut v: Vec<char> = chars_of(a);
    push_str(&mut v, b);
    push_str(&mut v, c);
    string_from_chars(&v)
}

/// Records a completed USB first-install of `slot_id` on `port`: the row
/// is driven through `built` to `flashed_pending_pk` (the table forbids
/// skipping `built`), one transition per step.
pub fn first_install_done(roster: &mut Roster, slot_id: &str, port: &str, now: &str) -> (r:
    FirstInstallOutcome)
    ensures
        slot_id@.len() == 0 ==> (r is MissingSlotId && *final(roster) == *old(roster)),
        slot_id@.len() != 0 && (forall|i: int| !first_slot(old(roster).devices@, slot_id@, i)) ==> (
        r is UnknownSlot && *final(roster) == *old(roster)),
        r matches FirstInstallOutcome::Applied { index, transitions, new_state } ==> {
            &&& first_slot(old(roster).devices@, slot_id@, index as int)
            &&& final(roster).devices@.len() == old(roster).devices@.len()
            &&& forall|j: int|
                0 <= j < old(roster).devices@.len() && j != index ==> #[trigger] final(roster).devices@[j] == old(roster).devices@[j]
            &&& flashed_row(
                old(roster).devices@[index as int],
                final(roster).devices@[index as int],
                port@,
                now@,
                transitions@,
            )
            &&& new_state@ == final(roster).devices@[index as int].state@
        },
        slot_id@.len() != 0 && (exists|i: int| first_slot(old(roster).devices@, slot_id@, i)) ==> r is Applied,
{
    if slot_id.is_empty() {
        return FirstInstallOutcome::MissingSlotId;
    }
    let i = match find_index(roster, slot_id) {
        Some(i) => i,
        None => {
            assert forall|k: int| !first_slot(old(roster).devices@, slot_id@, k) by {
                if 0 <= k < roster.devices@.len() {
                    assert(roster.devices@[k].slot_id@ != slot_id@);
                }
            }
            return FirstInstallOutcome::UnknownSlot;
        },
    };
    assert(first_slot(old(roster).devices@, slot_id@, i as int));
    let ghost old_devices = roster.devices@;
    let mut row = roster.devices.remove(i);
    let ghost row0 = row;
    let mut transitions: Vec<Transition> = Vec::new();
    if str_eq(row.state.as_str(), "placeholder") {
        let detail = concat3("operator-supplied artefact via first_install.done (port ", port, ")");
        proof {
            crate::roster::law_install_path_allowed();
        }
        let r1 = apply_transition(&mut row, "built", "built", detail.as_str(), now);
        assert(r1 is Ok);
        transitions.push(
            Transition {
                from: "placeholder".to_owned(),
                to: "built".to_owned(),
                detail: "operator-supplied artefact".to_owned(),
            },
        );
        let ghost mid = row;
        let detail2 = concat2("flashed via USB on ", port);
        proof {
            crate::roster::law_install_path_allowed();
            assert(detail2@ =~= flashed_detail(port@));
        }
        let r2 = apply_transition(&mut row, "flashed_pending_pk", "flashed_usb", detail2.as_str(), now);
        assert(r2 is Ok);
        transitions.push(
            Transition { from: "built".to_owned(), to: "flashed_pending_pk".to_owned(), detail: detail2 },
        );
        assert(flashed_row(row0, row, port@, now@, transitions@));
    } else if str_eq(row.state.as_str(), "built") {
        let detail2 = concat2("flashed via USB on ", port);
        proof {
            crate::roster::law_install_path_allowed();
            assert(detail2@ =~= flashed_detail(port@));
        }
        let r2 = apply_transition(&mut row, "flashed_pending_pk", "flashed_usb", detail2.as_str(), now);
        assert(r2 is Ok);
        transitions.push(
            Transition { from: "built".to_owned(), to: "flashed_pending_pk".to_owned(), detail: detail2 },
        );
    }
    let new_state = row.state.clone();
    roster.devices.insert(i, row);
    assert forall|j: int| 0 <= j < old_devices.len() && j != i implies #[trigger] roster.devices@[j]
        == old_devices[j] by {}
    FirstInstallOutcome::Applied { index: i, transitions, new_state }
}

/// What an enrolment did to the roster.
#[derive(Debug, Clone)]
pub enum EnrolOutcome {
    /// The event lacked the slot id or the device key.
    MissingFields,
    /// No row has that slot id.
    UnknownSlot,
    /// The row is not awaiting its key; nothing changed.
    WrongState,
    /// The row at `index` is enrolled.
    Enrolled { index: usize, transition: Transition },
}

/// `new` is `old` enrolled with key `pk` at `now`: moved to `enrolled`,
/// the key stamped, certificate and provisioning marked valid.
pub open spec fn enrolled_row(old: DeviceRow, new: DeviceRow, pk: Seq<char>, now: Seq<char>) -> bool {
    &&& exists|mid: DeviceRow|
        transitioned(old, mid, "enrolled"@, "enrolled_via_ble"@, "cert issued for "@ + pk, now)
            && new == (DeviceRow {
            device_pk: new.device_pk,
            cert_status: new.cert_status,
            provision_state: new.provision_state,
            ..mid
        })
    &&& (new.device_pk matches Some(k) && k@ == pk)
    &&& new.cert_status@ == "valid"@
    &&& new.provision_state@ == "valid"@
}

/// Records that the device of `slot_id` enrolled with key `device_pk`: only
/// a row in `flashed_pending_pk` moves (to `enrolled`).
pub fn device_enrolled(roster: &mut Roster, slot_id: &str, device_pk: &str, now: &str) -> (r:
    EnrolOutcome)
    ensures
        (slot_id@.len() == 0 || device_pk@.len() == 0) ==> (r is MissingFields && *final(roster)
            == *old(roster)),
        r is MissingFields ==> (slot_id@.len() == 0 || device_pk@.len() == 0) && *final(roster)
            == *old(roster),
        !(slot_id@.len() == 0 || device_pk@.len() == 0) && (forall|i: int|
            !first_slot(old(roster).devices@, slot_id@, i)) ==> r is UnknownSlot,
        !(slot_id@.len() == 0 || device_pk@.len() == 0) && (exists|i: int|
            first_slot(old(roster).devices@, slot_id@, i) && old(roster).devices@[i].state@
                != "flashed_pending_pk"@) ==> r is WrongState,
        r is UnknownSlot ==> *final(roster) == *old(roster) && forall|i: int|
            !first_slot(old(roster).devices@, slot_id@, i),
        r is WrongState ==> *final(roster) == *old(roster) && exists|i: int|
            first_slot(old(roster).devices@, slot_id@, i) && old(roster).devices@[i].state@
                != "flashed_pending_pk"@,
        r matches EnrolOutcome::Enrolled { index, transition } ==> {
            &&& first_slot(old(roster).devices@, slot_id@, index as int)
            &&& old(roster).devices@[index as int].state@ == "flashed_pending_pk"@
            &&& final(roster).devices@.len() == old(roster).devices@.len()
            &&& forall|j: int|
                0 <= j < old(roster).devices@.len() && j != index ==> #[trigger] final(roster).devices@[j] == old(roster).devices@[j]
            &&& enrolled_row(
                old(roster).devices@[index as int],
                final(roster).devices@[index as int],
                device_pk@,
                now@,
            )
            &&& transition_is(
                transition,
                "flashed_pending_pk"@,
                "enrolled"@,
                "cert issued for "@ + device_pk@,
            )
        },
        !(slot_id@.len() == 0 || device_pk@.len() == 0) && (exists|i: int|
            first_slot(old(roster).devices@, slot_id@, i) && old(roster).devices@[i].state@
                == "flashed_pending_pk"@) ==> r is Enrolled,
{
    if slot_id.is_empty() || device_pk.is_empty() {
        return EnrolOutcome::MissingFields;
    }
    let i = match find_index(roster, slot_id) {
        Some(i) => i,
        None => {
            assert forall|k: int| !first_slot(old(roster).devices@, slot_id@, k) by {
                if 0 <= k < roster.devices@.len() {
                    assert(roster.devices@[k].slot_id@ != slot_id@);
                }
            }
            return EnrolOutcome::UnknownSlot;
        },
    };
    assert(first_slot(old(roster).devices@, slot_id@, i as int));
    if !str_eq(roster.devices[i].state.as_str(), "flashed_pending_pk") {
        return EnrolOutcome::WrongState;
    }
    let ghost old_devices = roster.devices@;
    let mut row = roster.devices.remove(i);
    let detail = concat2("cert issued for ", device_pk);
    proof {
        crate::roster::law_install_path_allowed();
        assert(detail@ =~= "cert issued for "@ + device_pk@);
    }
    let r1 = apply_transition(&mut row, "enrolled", "enrolled_via_ble", detail.as_str(), now);
    assert(r1 is Ok);
    let ghost mid = row;
    row.device_pk = Some(device_pk.to_owned());
    row.cert_status = "valid".to_owned();
    row.provision_state = "valid".to_owned();
    assert(enrolled_row(old_devices[i as int], row, device_pk@, now@));
    roster.devices.insert(i, row);
    assert forall|j: int| 0 <= j < old_devices.len() && j != i implies #[trigger] roster.devices@[j]
        == old_devices[j] by {}
    EnrolOutcome::Enrolled {
        index: i,
        transition: Transition {
            from: "flashed_pending_pk".to_owned(),
            to: "enrolled".to_owned(),
            detail,
        },
    }
}

} // verus!

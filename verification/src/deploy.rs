//! The deploy sentant's decisions: USB first-install resolution and the
//! sequential OTA batch push.
//!
//! A first install names a slot and a serial port; the slot's host
//! board is looked up in the roster, the board's USB settings give the
//! esptool chip and the OTA offset, and the flasher is started.
//!
//! A batch push names a list of targets. Each target is gated on its
//! roster row being `reachable` and having an address; the gated-out
//! ones are reported at once, the rest are pushed one at a time, in
//! order, each started only when the previous one reported done or
//! error. When the queue drains the batch closes with its counts.
//!
//! Decoding payloads, reading the roster and the board files, and sending
//! what is emitted are the host's work.

use vstd::prelude::*;

use crate::bridge::registry;
use crate::flasher::{FlashParams, FlashRegion};
use crate::fnv::{fnv1a_32, hex_fixed, hex_min, push_hex_fixed, push_hex_min, str_hash};
use crate::ota::{OtaPushParams, OTA_PORT};
use crate::roster::{find_index, first_slot_index, Roster};
use crate::text::{chars_of, path_join, path_join_spec, push_str, str_eq, string_from_chars};

verus! {

/// The esptool baud rate of a first install.
pub const FIRST_INSTALL_BAUD: u32 = 460800;

/// One target of a batch push, as the payload gives it (a field is
/// `None` where absent or not of the expected JSON type).
#[derive(Debug, Clone)]
pub struct BatchTarget {
    pub slot_id: Option<String>,
    pub ip: Option<String>,
    pub port: Option<u64>,
}

/// A `deploy.batch.start` payload.
#[derive(Debug, Clone)]
pub struct BatchStart {
    pub batch_id: Option<String>,
    pub artefact_path: Option<String>,
    /// The `targets` array; `None` where absent or not an array.
    pub targets: Option<Vec<BatchTarget>>,
}

/// A `deploy.first_install.start` payload.
#[derive(Debug, Clone)]
pub struct FirstInstallStart {
    pub slot_id: Option<String>,
    pub port: Option<String>,
    pub artefact_path: Option<String>,
}

/// The part of a board's `[usb]` table a first install needs.
#[derive(Debug, Clone)]
pub struct UsbConfig {
    pub esptool_chip_arg: String,
    /// The `ota_0` flash offset, as `0x` and lowercase hex.
    pub ota_0_offset: String,
}

/// What the sentant emits.
#[derive(Debug, Clone)]
pub enum DeployEmit {
    /// Broadcast a plugin's event again, under the same hash.
    Rebroadcast { hash: u32, payload: Vec<u8> },
    /// `deploy.first_install.error {slot_id, port, phase: "resolving", message}`.
    FirstInstallError { slot_id: String, port: String, message: String },
    /// Fill the flasher's parameters and send it its start command.
    FlashStart(FlashParams),
    /// `deploy.device.error {batch_id, slot_id, error_kind, message}`.
    DeviceError { batch_id: String, slot_id: String, error_kind: String, message: String },
    /// `deploy.batch.done {batch_id, ok_count, error_count}`.
    BatchDone { batch_id: String, ok_count: u32, error_count: u32 },
    /// Fill the OTA pusher's parameters and send it its start command.
    PushStart(OtaPushParams),
}

/// What an event asks of the host.
#[derive(Debug, Clone)]
pub enum DeployStep {
    /// Send these, in order.
    Emit(Vec<DeployEmit>),
    /// Decode the payload as a [`FirstInstallStart`] and call
    /// [`resolve_first_install`].
    FirstInstall,
    /// Decode the payload as a [`BatchStart`] and call
    /// [`DeploySentant::batch_start`].
    Batch,
}

/// The text of an optional field, empty where absent.
pub open spec fn or_empty(s: Option<String>) -> Seq<char> {
    match s {
        Some(t) => t@,
        None => Seq::empty(),
    }
}

/// A target's slot id (empty where absent).
pub open spec fn target_slot(t: BatchTarget) -> Seq<char> {
    or_empty(t.slot_id)
}

/// A target's address (empty where absent).
pub open spec fn target_ip(t: BatchTarget) -> Seq<char> {
    or_empty(t.ip)
}

/// A target's port: the given number cut to 16 bits, else the OTA port.
pub open spec fn target_port(t: BatchTarget) -> u16 {
    match t.port {
        Some(p) => p as u16,
        None => OTA_PORT,
    }
}

/// Does the roster show `slot` as reachable (its first row's state)?
pub open spec fn slot_reachable(roster: Option<Roster>, slot: Seq<char>) -> bool {
    match roster {
        Some(r) => match first_slot_index(r.devices@, slot) {
            Some(i) => r.devices@[i].state@ == "reachable"@,
            None => false,
        },
        None => false,
    }
}

/// A target that names a slot is pushed only when the slot is reachable
/// and has an address.
pub open spec fn pushable(t: BatchTarget, roster: Option<Roster>) -> bool {
    &&& target_slot(t).len() > 0
    &&& slot_reachable(roster, target_slot(t))
    &&& target_ip(t).len() > 0
}

/// Why a target that names a slot is gated out.
pub open spec fn gate_reason(t: BatchTarget) -> Seq<char> {
    if target_ip(t).len() == 0 {
        "E_OTA_UNREACHABLE: no IP known for slot"@
    } else {
        "E_OTA_UNREACHABLE: device state is not reachable"@
    }
}

/// A queued push: slot id, address, port.
pub type QueuedPush = (Seq<char>, Seq<char>, u16);

/// The pushes a batch queues, in target order.
pub open spec fn gated_queue(ts: Seq<BatchTarget>, roster: Option<Roster>) -> Seq<QueuedPush>
    decreases ts.len(),
{
    if ts.len() == 0 {
        Seq::empty()
    } else {
        let rest = gated_queue(ts.drop_last(), roster);
        let t = ts.last();
        if pushable(t, roster) {
            rest.push((target_slot(t), target_ip(t), target_port(t)))
        } else {
            rest
        }
    }
}

/// The targets gated out: slot id and reason, in target order.
pub open spec fn gated_out(ts: Seq<BatchTarget>, roster: Option<Roster>) -> Seq<(Seq<char>, Seq<char>)>
    decreases ts.len(),
{
    if ts.len() == 0 {
        Seq::empty()
    } else {
        let rest = gated_out(ts.drop_last(), roster);
        let t = ts.last();
        if target_slot(t).len() > 0 && !pushable(t, roster) {
            rest.push((target_slot(t), gate_reason(t)))
        } else {
            rest
        }
    }
}

/// How many targets name a slot.
pub open spec fn named_count(ts: Seq<BatchTarget>) -> nat
    decreases ts.len(),
{
    if ts.len() == 0 {
        0
    } else {
        named_count(ts.drop_last()) + if target_slot(ts.last()).len() > 0 {
            1nat
        } else {
            0nat
        }
    }
}

/// Every target that names a slot is either queued or gated out.
pub proof fn lemma_gate_partition(ts: Seq<BatchTarget>, roster: Option<Roster>)
    ensures
        gated_queue(ts, roster).len() + gated_out(ts, roster).len() == named_count(ts),
        named_count(ts) <= ts.len(),
    decreases ts.len(),
{
    if ts.len() > 0 {
        lemma_gate_partition(ts.drop_last(), roster);
    }
}

/// `e` is the device error for a gated-out target.
pub open spec fn is_device_error(e: DeployEmit, batch_id: Seq<char>, g: (Seq<char>, Seq<char>)) -> bool {
    e matches DeployEmit::DeviceError { batch_id: b, slot_id: s, error_kind: k, message: m } && b@
        == batch_id && s@ == g.0 && k@ == "unreachable"@ && m@ == g.1
}

/// `e` closes batch `batch_id` with these counts.
pub open spec fn is_batch_done(e: DeployEmit, batch_id: Seq<char>, ok: nat, err: nat) -> bool {
    e matches DeployEmit::BatchDone { batch_id: b, ok_count: o, error_count: x } && b@ == batch_id
        && o == ok && x == err
}

/// `e` starts the push `q` of batch `batch_id`.
pub open spec fn is_push_start(
    e: DeployEmit,
    batch_id: Seq<char>,
    artefact: Seq<char>,
    log_path: Option<Seq<char>>,
    q: QueuedPush,
) -> bool {
    e matches DeployEmit::PushStart(p) && p.slot_id@ == q.0 && p.target_ip@ == q.1 && p.port == q.2
        && p.batch_id@ == batch_id && p.firmware_path@ == artefact && match p.log_path {
        Some(l) => log_path == Some(l@),
        None => log_path is None,
    }
}

/// A synthesised batch id: `b` and six lowercase hex digits.
pub open spec fn synth_id_shape(id: Seq<char>) -> bool {
    exists|n: nat| n < 0x100_0000 && id == seq!['b'] + hex_fixed(n, 6)
}

/// `format!("b{:06x}", nanos & 0xFF_FFFF)`.
pub fn batch_id_from_nanos(nanos: u64) -> (s: String)
    ensures
        s@ == seq!['b'] + hex_fixed((nanos % 0x100_0000) as nat, 6),
{
    let low: u64 = nanos % 0x100_0000;
    let mut v: Vec<char> = Vec::new();
    v.push('b');
    push_hex_fixed(&mut v, low as u32, 6);
    assert(v@ =~= seq!['b'] + hex_fixed((nanos % 0x100_0000) as nat, 6));
    string_from_chars(&v)
}

/// Nanoseconds since the Unix epoch by the system clock, truncated to 64
/// bits (zero when the clock reads before the epoch). Nothing is stated of
/// the value: it is the time.
#[verifier::external_body]
fn unix_nanos() -> u64 {
    match std::time::SystemTime::now().duration_since(std::time::UNIX_EPOCH) {
        Ok(d) => d.as_nanos() as u64,
        Err(_) => 0,
    }
}

/// A batch id from the clock, for a batch whose payload gives none.
pub fn synth_batch_id() -> (s: String)
    ensures
        synth_id_shape(s@),
{
    let nanos = unix_nanos();
    let s = batch_id_from_nanos(nanos);
    assert(synth_id_shape(s@)) by {
        let n = (nanos % 0x100_0000) as nat;
        assert(n < 0x100_0000 && s@ == seq!['b'] + hex_fixed(n, 6));
    }
    s
}

/// The roster behind an optional reference.
pub open spec fn opt_roster(r: Option<&Roster>) -> Option<Roster> {
    match r {
        Some(x) => Some(*x),
        None => None,
    }
}

/// The targets of a batch payload (none where `targets` is not an array).
pub open spec fn batch_targets(p: BatchStart) -> Seq<BatchTarget> {
    match p.targets {
        Some(v) => v@,
        None => Seq::empty(),
    }
}

/// The audit-log path of an apiary's pushes.
pub open spec fn deploy_log_path(apiary_dir: Option<&str>) -> Option<Seq<char>> {
    match apiary_dir {
        Some(d) => Some(path_join_spec(d@, "devices/deploy_log.jsonl"@)),
        None => None,
    }
}

/// A queued push as values.
pub open spec fn queue_view(q: Seq<(String, String, u16)>) -> Seq<QueuedPush> {
    Seq::new(q.len(), |i: int| (q[i].0@, q[i].1@, q[i].2))
}

/// `e` broadcasts `payload` again under `hash`.
pub open spec fn is_rebroadcast(e: DeployEmit, hash: u32, payload: Seq<u8>) -> bool {
    e matches DeployEmit::Rebroadcast { hash: h, payload: p } && h == hash && p@ == payload
}

#[derive(Debug, Clone, Copy, PartialEq, Eq, Structural)]
enum Phase {
    Idle,
    Flashing,
    Pushing,
}

struct BatchState {
    batch_id: String,
    artefact_path: String,
    log_path: Option<String>,
    /// Pushes not yet started, in order.
    queue: Vec<(String, String, u16)>,
    ok_count: u32,
    error_count: u32,
    /// Targets that named a slot when the batch started.
    total: Ghost<nat>,
}

/// The deploy sentant: its phase, the batch in flight, and the hashes of
/// the events it consumes and emits.
pub struct DeploySentant {
    phase: Phase,
    batch: Option<BatchState>,
    h_fi_start: u32,
    h_fi_progress: u32,
    h_fi_done: u32,
    h_fi_error: u32,
    h_batch_start: u32,
    h_batch_done: u32,
    h_dev_progress: u32,
    h_dev_done: u32,
    h_dev_error: u32,
}

/// `deploy.first_install.start`.
pub open spec fn fi_start_hash() -> u32 { str_hash("r2.composer.deploy.first_install.start") }
/// `deploy.first_install.progress`.
pub open spec fn fi_progress_hash() -> u32 { str_hash("r2.composer.deploy.first_install.progress") }
/// `deploy.first_install.done`.
pub open spec fn fi_done_hash() -> u32 { str_hash("r2.composer.deploy.first_install.done") }
/// `deploy.first_install.error`.
pub open spec fn fi_error_hash() -> u32 { str_hash("r2.composer.deploy.first_install.error") }
/// `deploy.batch.start`.
pub open spec fn batch_start_hash() -> u32 { str_hash("r2.composer.deploy.batch.start") }
/// `deploy.batch.done`.
pub open spec fn batch_done_hash() -> u32 { str_hash("r2.composer.deploy.batch.done") }
/// `deploy.device.progress`.
pub open spec fn dev_progress_hash() -> u32 { str_hash("r2.composer.deploy.device.progress") }
/// `deploy.device.done`.
pub open spec fn dev_done_hash() -> u32 { str_hash("r2.composer.deploy.device.done") }
/// `deploy.device.error`.
pub open spec fn dev_error_hash() -> u32 { str_hash("r2.composer.deploy.device.error") }

/// The results a plugin reports: first-install progress, done and error,
/// and a device's progress, done and error.
pub open spec fn is_result_hash(h: u32) -> bool {
    h == fi_progress_hash() || h == fi_done_hash() || h == fi_error_hash() || h == dev_progress_hash()
        || h == dev_done_hash() || h == dev_error_hash()
}

/// The deploy event names hash apart: no result shares a hash with a
/// start, and the results' hashes are pairwise different.
pub proof fn lemma_deploy_hashes_apart()
    ensures
        is_result_hash(fi_start_hash()) == false,
        is_result_hash(batch_start_hash()) == false,
        fi_start_hash() != batch_start_hash(),
        fi_progress_hash() != fi_done_hash(),
        fi_progress_hash() != fi_error_hash(),
        fi_done_hash() != fi_error_hash(),
        dev_progress_hash() != dev_done_hash(),
        dev_progress_hash() != dev_error_hash(),
        dev_done_hash() != dev_error_hash(),
        fi_progress_hash() != dev_progress_hash(),
        fi_progress_hash() != dev_done_hash(),
        fi_progress_hash() != dev_error_hash(),
{
    crate::bridge::lemma_known_event_hash_values();
}

impl DeploySentant {
    #[verifier::type_invariant]
    spec fn well_formed(self) -> bool {
        &&& self.h_fi_start == fi_start_hash()
        &&& self.h_fi_progress == fi_progress_hash()
        &&& self.h_fi_done == fi_done_hash()
        &&& self.h_fi_error == fi_error_hash()
        &&& self.h_batch_start == batch_start_hash()
        &&& self.h_batch_done == batch_done_hash()
        &&& self.h_dev_progress == dev_progress_hash()
        &&& self.h_dev_done == dev_done_hash()
        &&& self.h_dev_error == dev_error_hash()
        &&& match self.batch {
            Some(b) => b.ok_count + b.error_count + b.queue@.len() + 1 == b.total@ && b.total@
                <= u32::MAX,
            None => true,
        }
    }

    /// The phase: `0` idle, `1` flashing, `2` pushing.
    pub closed spec fn phase_id(self) -> u32 {
        match self.phase {
            Phase::Idle => 0,
            Phase::Flashing => 1,
            Phase::Pushing => 2,
        }
    }

    /// Is a batch in flight?
    pub closed spec fn batch_active(self) -> bool {
        self.batch is Some
    }

    /// The batch's id.
    pub closed spec fn batch_id(self) -> Seq<char> {
        self.batch->0.batch_id@
    }

    /// The firmware the batch pushes.
    pub closed spec fn batch_artefact(self) -> Seq<char> {
        self.batch->0.artefact_path@
    }

    /// The batch's audit-log path.
    pub closed spec fn batch_log(self) -> Option<Seq<char>> {
        match self.batch->0.log_path {
            Some(l) => Some(l@),
            None => None,
        }
    }

    /// The pushes not yet started, in order.
    pub closed spec fn batch_queue(self) -> Seq<QueuedPush> {
        queue_view(self.batch->0.queue@)
    }

    /// Pushes reported done so far.
    pub closed spec fn batch_ok(self) -> nat {
        self.batch->0.ok_count as nat
    }

    /// Targets gated out or reported failed so far.
    pub closed spec fn batch_err(self) -> nat {
        self.batch->0.error_count as nat
    }

    /// Targets that named a slot when the batch started.
    pub closed spec fn batch_total(self) -> nat {
        self.batch->0.total@
    }

    /// Same batch, field for field.
    pub open spec fn same_batch(self, other: Self) -> bool {
        &&& self.batch_active() == other.batch_active()
        &&& self.batch_active() ==> {
            &&& self.batch_id() == other.batch_id()
            &&& self.batch_artefact() == other.batch_artefact()
            &&& self.batch_log() == other.batch_log()
            &&& self.batch_queue() == other.batch_queue()
            &&& self.batch_ok() == other.batch_ok()
            &&& self.batch_err() == other.batch_err()
            &&& self.batch_total() == other.batch_total()
        }
    }

    /// While a batch is in flight, one push is running and every target
    /// that named a slot is counted, queued, or that running push.
    pub open spec fn accounted(self) -> bool {
        self.batch_active() ==> self.batch_ok() + self.batch_err() + self.batch_queue().len() + 1
            == self.batch_total()
    }

    /// An idle sentant with no batch.
    pub fn new() -> (s: Self)
        ensures
            s.phase_id() == 0,
            !s.batch_active(),
    {
        let reg = registry();
        let a = reg.hash_of("r2.composer.deploy.first_install.start");
        let b = reg.hash_of("r2.composer.deploy.first_install.progress");
        let c = reg.hash_of("r2.composer.deploy.first_install.done");
        let d = reg.hash_of("r2.composer.deploy.first_install.error");
        let e = reg.hash_of("r2.composer.deploy.batch.start");
        let f = reg.hash_of("r2.composer.deploy.batch.done");
        let g = reg.hash_of("r2.composer.deploy.device.progress");
        let h = reg.hash_of("r2.composer.deploy.device.done");
        let i = reg.hash_of("r2.composer.deploy.device.error");
        DeploySentant {
            phase: Phase::Idle,
            batch: None,
            h_fi_start: a.unwrap(),
            h_fi_progress: b.unwrap(),
            h_fi_done: c.unwrap(),
            h_fi_error: d.unwrap(),
            h_batch_start: e.unwrap(),
            h_batch_done: f.unwrap(),
            h_dev_progress: g.unwrap(),
            h_dev_done: h.unwrap(),
            h_dev_error: i.unwrap(),
        }
    }

    /// The state id: `0` idle, `1` flashing, `2` pushing.
    pub fn state(&self) -> (s: u32)
        ensures
            s == self.phase_id(),
    {
        match self.phase {
            Phase::Idle => 0,
            Phase::Flashing => 1,
            Phase::Pushing => 2,
        }
    }

    /// Is a batch in flight?
    pub fn has_batch(&self) -> (r: bool)
        ensures
            r == self.batch_active(),
    {
        self.batch.is_some()
    }

    /// The class hash naming this sentant.
    pub fn class_hash(&self) -> (h: u32)
        ensures
            h == str_hash("ai.reality2.composer.sentant.deploy"),
    {
        fnv1a_32("ai.reality2.composer.sentant.deploy")
    }

    /// The sentant's name.
    pub fn name(&self) -> (s: &'static str)
        ensures
            s@ == "Deploy"@,
    {
        "Deploy"
    }

    /// The events this sentant consumes.
    pub fn subscriptions(&self) -> (v: Vec<u32>)
        ensures
            v@ == seq![
                fi_start_hash(),
                fi_progress_hash(),
                fi_done_hash(),
                fi_error_hash(),
                batch_start_hash(),
                dev_progress_hash(),
                dev_done_hash(),
                dev_error_hash(),
            ],
    {
        proof {
            use_type_invariant(self);
        }
        let mut v: Vec<u32> = Vec::new();
        v.push(self.h_fi_start);
        v.push(self.h_fi_progress);
        v.push(self.h_fi_done);
        v.push(self.h_fi_error);
        v.push(self.h_batch_start);
        v.push(self.h_dev_progress);
        v.push(self.h_dev_done);
        v.push(self.h_dev_error);
        v
    }
}

impl DeploySentant {
    /// Counts the running push's result, then starts the next queued
    /// push or closes the batch (back to idle when there is no batch).
    fn finish_push(&mut self, done: bool) -> (e: Option<DeployEmit>)
        ensures
            final(self).accounted(),
            !old(self).batch_active() ==> e is None && final(self).phase_id() == 0
                && !final(self).batch_active(),
            old(self).batch_active() && old(self).batch_queue().len() == 0 ==> {
                let ok = old(self).batch_ok() + if done { 1nat } else { 0nat };
                let err = old(self).batch_err() + if done { 0nat } else { 1nat };
                &&& e matches Some(d) && is_batch_done(d, old(self).batch_id(), ok, err)
                &&& ok + err == old(self).batch_total()
                &&& final(self).phase_id() == 0
                &&& !final(self).batch_active()
            },
            old(self).batch_active() && old(self).batch_queue().len() > 0 ==> {
                &&& e matches Some(d) && is_push_start(
                    d,
                    old(self).batch_id(),
                    old(self).batch_artefact(),
                    old(self).batch_log(),
                    old(self).batch_queue()[0],
                )
                &&& final(self).phase_id() == 2
                &&& final(self).batch_active()
                &&& final(self).batch_id() == old(self).batch_id()
                &&& final(self).batch_artefact() == old(self).batch_artefact()
                &&& final(self).batch_log() == old(self).batch_log()
                &&& final(self).batch_queue() == old(self).batch_queue().drop_first()
                &&& final(self).batch_ok() == old(self).batch_ok() + if done { 1nat } else { 0nat }
                &&& final(self).batch_err() == old(self).batch_err() + if done { 0nat } else { 1nat }
                &&& final(self).batch_total() == old(self).batch_total()
            },
    {
        proof {
            use_type_invariant(&*self);
        }
        let mut slot: Option<BatchState> = None;
        std::mem::swap(&mut slot, &mut self.batch);
        match slot {
            None => {
                self.phase = Phase::Idle;
                None
            },
            Some(mut b) => {
                if done {
                    b.ok_count = b.ok_count + 1;
                } else {
                    b.error_count = b.error_count + 1;
                }
                if b.queue.len() == 0 {
                    self.phase = Phase::Idle;
                    Some(
                        DeployEmit::BatchDone {
                            batch_id: b.batch_id,
                            ok_count: b.ok_count,
                            error_count: b.error_count,
                        },
                    )
                } else {
                    let ghost q0 = b.queue@;
                    let (slot_id, ip, port) = b.queue.remove(0);
                    assert(queue_view(b.queue@) =~= queue_view(q0).drop_first());
                    let params = OtaPushParams {
                        slot_id,
                        batch_id: b.batch_id.clone(),
                        target_ip: ip,
                        port,
                        firmware_path: b.artefact_path.clone(),
                        log_path: b.log_path.clone(),
                    };
                    self.batch = Some(b);
                    self.phase = Phase::Pushing;
                    Some(DeployEmit::PushStart(params))
                }
            },
        }
    }
}

/// The effect of starting batch `id` with an artefact: the gated-out
/// targets reported in order; then the batch closed at once if nothing is
/// left to push, or the first push started and the rest queued.
pub open spec fn batch_started(
    old_s: DeploySentant,
    new_s: DeploySentant,
    ts: Seq<BatchTarget>,
    roster: Option<Roster>,
    id: Seq<char>,
    artefact: Seq<char>,
    log: Option<Seq<char>>,
    emits: Seq<DeployEmit>,
) -> bool {
    let g = gated_out(ts, roster);
    let q = gated_queue(ts, roster);
    &&& emits.len() == g.len() + 1
    &&& forall|i: int| 0 <= i < g.len() ==> #[trigger] is_device_error(emits[i], id, g[i])
    &&& q.len() == 0 ==> {
        &&& is_batch_done(emits[g.len() as int], id, 0, g.len())
        &&& new_s.phase_id() == old_s.phase_id()
        &&& new_s.same_batch(old_s)
    }
    &&& q.len() > 0 ==> {
        &&& is_push_start(emits[g.len() as int], id, artefact, log, q[0])
        &&& new_s.phase_id() == 2
        &&& new_s.batch_active()
        &&& new_s.batch_id() == id
        &&& new_s.batch_artefact() == artefact
        &&& new_s.batch_log() == log
        &&& new_s.batch_queue() == q.drop_first()
        &&& new_s.batch_ok() == 0
        &&& new_s.batch_err() == g.len()
        &&& new_s.batch_total() == named_count(ts)
    }
}

/// The count a batch without an artefact reports as failed: every target
/// (the array's length, cut to 32 bits), and at least one.
pub open spec fn no_artefact_errors(p: BatchStart) -> nat {
    let n = batch_targets(p).len() as u32;
    if n == 0 {
        1
    } else {
        n as nat
    }
}

/// Starting a batch under `id`: the payload's id, or a clock-made one.
pub open spec fn batch_start_outcome(
    old_s: DeploySentant,
    new_s: DeploySentant,
    p: BatchStart,
    roster: Option<Roster>,
    log: Option<Seq<char>>,
    emits: Seq<DeployEmit>,
    id: Seq<char>,
) -> bool {
    &&& match p.batch_id {
        Some(b) => id == b@,
        None => synth_id_shape(id),
    }
    &&& p.artefact_path is None ==> {
        &&& emits.len() == 1
        &&& is_batch_done(emits[0], id, 0, no_artefact_errors(p))
        &&& new_s.phase_id() == old_s.phase_id()
        &&& new_s.same_batch(old_s)
    }
    &&& p.artefact_path matches Some(a) ==> batch_started(old_s, new_s, batch_targets(p), roster, id, a@, log, emits)
}

impl DeploySentant {
    /// Starts batch `batch_id` (see [`batch_started`]); a payload without an
    /// artefact closes the batch at once with every target counted failed.
    pub fn batch_start_with_id(
        &mut self,
        p: &BatchStart,
        batch_id: String,
        roster: Option<&Roster>,
        apiary_dir: Option<&str>,
    ) -> (emits: Vec<DeployEmit>)
        requires
            batch_targets(*p).len() <= u32::MAX,
        ensures
            p.artefact_path is None ==> {
                &&& emits@.len() == 1
                &&& is_batch_done(emits@[0], batch_id@, 0, no_artefact_errors(*p))
                &&& final(self).phase_id() == old(self).phase_id()
                &&& final(self).same_batch(*old(self))
            },
            p.artefact_path matches Some(a) ==> batch_started(
                *old(self),
                *final(self),
                batch_targets(*p),
                opt_roster(roster),
                batch_id@,
                a@,
                deploy_log_path(apiary_dir),
                emits@,
            ),
            final(self).accounted(),
    {
        proof {
            use_type_invariant(&*self);
        }
        let ghost ts = batch_targets(*p);
        let ghost ro = opt_roster(roster);
        let artefact: String = match &p.artefact_path {
            Some(a) => a.clone(),
            None => {
                let n: usize = match &p.targets {
                    Some(v) => v.len(),
                    None => 0,
                };
                let n32: u32 = n as u32;
                let errs: u32 = if n32 == 0 { 1 } else { n32 };
                let mut out: Vec<DeployEmit> = Vec::new();
                out.push(DeployEmit::BatchDone { batch_id, ok_count: 0, error_count: errs });
                return out;
            },
        };
        let log_path: Option<String> = match apiary_dir {
            Some(d) => Some(path_join(d, "devices/deploy_log.jsonl")),
            None => None,
        };
        let empty: Vec<BatchTarget> = Vec::new();
        let targets: &Vec<BatchTarget> = match &p.targets {
            Some(v) => v,
            None => &empty,
        };
        assert(targets@ == ts);
        let mut out: Vec<DeployEmit> = Vec::new();
        let mut queue: Vec<(String, String, u16)> = Vec::new();
        let mut error_count: u32 = 0;
        let mut i: usize = 0;
        while i < targets.len()
            invariant
                targets@ == ts,
                ts.len() <= u32::MAX,
                i <= ts.len(),
                ro == opt_roster(roster),
                out@.len() == gated_out(ts.take(i as int), ro).len(),
                forall|k: int|
                    0 <= k < out@.len() ==> #[trigger] is_device_error(
                        out@[k],
                        batch_id@,
                        gated_out(ts.take(i as int), ro)[k],
                    ),
                queue_view(queue@) == gated_queue(ts.take(i as int), ro),
                error_count == gated_out(ts.take(i as int), ro).len(),
            decreases ts.len() - i,
        {
            proof {
                lemma_gate_partition(ts.take(i as int), ro);
            }
            let t = &targets[i];
            let ghost pre = ts.take(i as int);
            assert(ts.take(i + 1).drop_last() =~= pre);
            assert(ts.take(i + 1).last() == ts[i as int]);
            let slot: &str = match &t.slot_id {
                Some(s) => s.as_str(),
                None => "",
            };
            let ip: &str = match &t.ip {
                Some(s) => s.as_str(),
                None => "",
            };
            let port: u16 = match t.port {
                Some(n) => #[verifier::truncate] (n as u16),
                None => OTA_PORT,
            };
            proof {
                reveal_strlit("");
            }
            assert(slot@ == target_slot(*t));
            assert(ip@ == target_ip(*t));
            if slot.is_empty() {
                assert(gated_out(ts.take(i + 1), ro) == gated_out(pre, ro));
                assert(gated_queue(ts.take(i + 1), ro) == gated_queue(pre, ro));
            } else {
                let reachable: bool = match roster {
                    Some(r) => match find_index(r, slot) {
                        Some(j) => str_eq(r.devices[j].state.as_str(), "reachable"),
                        None => false,
                    },
                    None => false,
                };
                assert(reachable == slot_reachable(ro, slot@)) by {
                    match roster {
                        Some(r) => {
                            let fi = first_slot_index(r.devices@, slot@);
                            if exists|j: int| 0 <= j < r.devices@.len() && r.devices@[j].slot_id@ == slot@ {
                                let c = choose|j: int|
                                    0 <= j < r.devices@.len() && r.devices@[j].slot_id@ == slot@ && forall|k: int|
                                        0 <= k < j ==> r.devices@[k].slot_id@ != slot@;
                                assert(exists|j: int|
                                    0 <= j < r.devices@.len() && r.devices@[j].slot_id@ == slot@ && forall|k: int|
                                        0 <= k < j ==> r.devices@[k].slot_id@ != slot@) by {
                                    let j0 = choose|j: int| 0 <= j < r.devices@.len() && r.devices@[j].slot_id@ == slot@;
                                    lemma_first_match(r.devices@, slot@, j0);
                                }
                                assert(fi == Some(c));
                            }
                        },
                        None => {},
                    }
                }
                if !reachable || ip.is_empty() {
                    let reason: &str = if ip.is_empty() {
                        "E_OTA_UNREACHABLE: no IP known for slot"
                    } else {
                        "E_OTA_UNREACHABLE: device state is not reachable"
                    };
                    assert(reason@ == gate_reason(*t));
                    out.push(
                        DeployEmit::DeviceError {
                            batch_id: batch_id.clone(),
                            slot_id: slot.to_string(),
                            error_kind: "unreachable".to_string(),
                            message: reason.to_string(),
                        },
                    );
                    error_count = error_count + 1;
                    assert(gated_out(ts.take(i + 1), ro) == gated_out(pre, ro).push((slot@, reason@)));
                    assert(gated_queue(ts.take(i + 1), ro) == gated_queue(pre, ro));
                } else {
                    let ghost q0 = queue@;
                    queue.push((slot.to_string(), ip.to_string(), port));
                    assert(queue_view(queue@) =~= queue_view(q0).push((slot@, ip@, port)));
                    assert(gated_queue(ts.take(i + 1), ro) == gated_queue(pre, ro).push(
                        (slot@, ip@, port),
                    ));
                    assert(gated_out(ts.take(i + 1), ro) == gated_out(pre, ro));
                }
            }
            i = i + 1;
        }
        assert(ts.take(ts.len() as int) =~= ts);
        proof {
            lemma_gate_partition(ts, ro);
        }
        if queue.len() == 0 {
            out.push(DeployEmit::BatchDone { batch_id, ok_count: 0, error_count });
            return out;
        }
        let ghost q0 = queue@;
        let (slot_id, ip, port) = queue.remove(0);
        assert(queue_view(queue@) =~= queue_view(q0).drop_first());
        let params = OtaPushParams {
            slot_id,
            batch_id: batch_id.clone(),
            target_ip: ip,
            port,
            firmware_path: artefact.clone(),
            log_path: log_path.clone(),
        };
        self.batch = Some(
            BatchState {
                batch_id,
                artefact_path: artefact,
                log_path,
                queue,
                ok_count: 0,
                error_count,
                total: Ghost(named_count(ts)),
            },
        );
        self.phase = Phase::Pushing;
        out.push(DeployEmit::PushStart(params));
        out
    }

    /// Starts a batch under the payload's id, or a clock-made one when it
    /// gives none.
    pub fn batch_start(&mut self, p: &BatchStart, roster: Option<&Roster>, apiary_dir: Option<&str>) -> (emits:
        Vec<DeployEmit>)
        requires
            batch_targets(*p).len() <= u32::MAX,
        ensures
            exists|id: Seq<char>|
                batch_start_outcome(*old(self), *final(self), *p, opt_roster(roster), deploy_log_path(apiary_dir), emits@, id),
            final(self).accounted(),
    {
        let id: String = match &p.batch_id {
            Some(b) => b.clone(),
            None => synth_batch_id(),
        };
        let ghost idv = id@;
        let emits = self.batch_start_with_id(p, id, roster, apiary_dir);
        assert(batch_start_outcome(*old(self), *self, *p, opt_roster(roster), deploy_log_path(apiary_dir), emits@, idv));
        emits
    }
}

/// The first row with a slot id exists once any does.
proof fn lemma_first_match(devices: Seq<crate::roster::DeviceRow>, slot: Seq<char>, j0: int)
    requires
        0 <= j0 < devices.len(),
        devices[j0].slot_id@ == slot,
    ensures
        exists|j: int|
            0 <= j < devices.len() && devices[j].slot_id@ == slot && forall|k: int|
                0 <= k < j ==> devices[k].slot_id@ != slot,
    decreases j0,
{
    if exists|k: int| 0 <= k < j0 && devices[k].slot_id@ == slot {
        let k = choose|k: int| 0 <= k < j0 && devices[k].slot_id@ == slot;
        lemma_first_match(devices, slot, k);
    }
}

/// A push's result arrived (`done` counts it ok, otherwise failed): the
/// plugin's event is broadcast again, then the next push starts or the
/// batch closes.
pub open spec fn push_result(
    old_s: DeploySentant,
    new_s: DeploySentant,
    hash: u32,
    payload: Seq<u8>,
    done: bool,
    emits: Seq<DeployEmit>,
) -> bool {
    let ok = old_s.batch_ok() + if done { 1nat } else { 0nat };
    let err = old_s.batch_err() + if done { 0nat } else { 1nat };
    &&& emits.len() >= 1
    &&& is_rebroadcast(emits[0], hash, payload)
    &&& !old_s.batch_active() ==> emits.len() == 1 && new_s.phase_id() == 0 && !new_s.batch_active()
    &&& old_s.batch_active() && old_s.batch_queue().len() == 0 ==> {
        &&& emits.len() == 2
        &&& is_batch_done(emits[1], old_s.batch_id(), ok, err)
        &&& ok + err == old_s.batch_total()
        &&& new_s.phase_id() == 0
        &&& !new_s.batch_active()
    }
    &&& old_s.batch_active() && old_s.batch_queue().len() > 0 ==> {
        &&& emits.len() == 2
        &&& is_push_start(emits[1], old_s.batch_id(), old_s.batch_artefact(), old_s.batch_log(), old_s.batch_queue()[0])
        &&& new_s.phase_id() == 2
        &&& new_s.batch_active()
        &&& new_s.batch_id() == old_s.batch_id()
        &&& new_s.batch_artefact() == old_s.batch_artefact()
        &&& new_s.batch_log() == old_s.batch_log()
        &&& new_s.batch_queue() == old_s.batch_queue().drop_first()
        &&& new_s.batch_ok() == ok
        &&& new_s.batch_err() == err
        &&& new_s.batch_total() == old_s.batch_total()
    }
}

/// Just the plugin's event broadcast again, nothing else changed.
pub open spec fn only_rebroadcast(
    old_s: DeploySentant,
    new_s: DeploySentant,
    hash: u32,
    payload: Seq<u8>,
    emits: Seq<DeployEmit>,
) -> bool {
    &&& emits.len() == 1
    &&& is_rebroadcast(emits[0], hash, payload)
    &&& new_s.same_batch(old_s)
}

impl DeploySentant {
    /// Handles an event: the two start events are handed back for the
    /// host to decode; a plugin's progress, done and error events are
    /// broadcast again, a device's result moving the batch on; events of
    /// any other source are ignored.
    pub fn handle_event(&mut self, hash: u32, from_plugin: bool, payload: &[u8]) -> (step: DeployStep)
        ensures
            final(self).accounted(),
            !from_plugin && is_result_hash(hash) ==> (step matches DeployStep::Emit(emits) && emits@.len() == 0)
                && *final(self) == *old(self),
            from_plugin && hash == fi_progress_hash() ==> (step matches DeployStep::Emit(emits) && only_rebroadcast(
                *old(self),
                *final(self),
                hash,
                payload@,
                emits@,
            )),
            hash == fi_start_hash() ==> step is FirstInstall && *final(self) == *old(self),
            hash != fi_start_hash() && hash == batch_start_hash() ==> step is Batch && *final(self)
                == *old(self),
            hash != fi_start_hash() && hash != batch_start_hash() ==> (step matches DeployStep::Emit(
                emits,
            ) && {
                if !from_plugin {
                    emits@.len() == 0 && *final(self) == *old(self)
                } else if hash == dev_progress_hash() {
                    only_rebroadcast(*old(self), *final(self), hash, payload@, emits@)
                        && final(self).phase_id() == old(self).phase_id()
                } else if hash == dev_done_hash() {
                    push_result(*old(self), *final(self), hash, payload@, true, emits@)
                } else if hash == dev_error_hash() {
                    push_result(*old(self), *final(self), hash, payload@, false, emits@)
                } else if hash == fi_progress_hash() {
                    only_rebroadcast(*old(self), *final(self), hash, payload@, emits@)
                        && final(self).phase_id() == old(self).phase_id()
                } else if hash == fi_done_hash() || hash == fi_error_hash() {
                    only_rebroadcast(*old(self), *final(self), hash, payload@, emits@)
                        && final(self).phase_id() == 0
                } else {
                    emits@.len() == 0 && *final(self) == *old(self)
                }
            }),
    {
        proof {
            use_type_invariant(&*self);
            lemma_deploy_hashes_apart();
        }
        if hash == self.h_fi_start {
            return DeployStep::FirstInstall;
        }
        if hash == self.h_batch_start {
            return DeployStep::Batch;
        }
        let mut out: Vec<DeployEmit> = Vec::new();
        if !from_plugin {
            return DeployStep::Emit(out);
        }
        if hash == self.h_dev_progress {
            out.push(DeployEmit::Rebroadcast { hash, payload: vstd::slice::slice_to_vec(payload) });
        } else if hash == self.h_dev_done {
            out.push(DeployEmit::Rebroadcast { hash, payload: vstd::slice::slice_to_vec(payload) });
            match self.finish_push(true) {
                Some(d) => out.push(d),
                None => {},
            }
        } else if hash == self.h_dev_error {
            out.push(DeployEmit::Rebroadcast { hash, payload: vstd::slice::slice_to_vec(payload) });
            match self.finish_push(false) {
                Some(d) => out.push(d),
                None => {},
            }
        } else if hash == self.h_fi_progress {
            out.push(DeployEmit::Rebroadcast { hash, payload: vstd::slice::slice_to_vec(payload) });
        } else if hash == self.h_fi_done || hash == self.h_fi_error {
            self.phase = Phase::Idle;
            out.push(DeployEmit::Rebroadcast { hash, payload: vstd::slice::slice_to_vec(payload) });
        }
        DeployStep::Emit(out)
    }
}

/// Why a first install cannot go ahead before the board is looked at:
/// no slot or port given, no apiary open, or no roster row for the slot.
pub open spec fn first_install_refusal(p: FirstInstallStart, roster: Option<Roster>) -> Option<Seq<char>> {
    let slot = or_empty(p.slot_id);
    if slot.len() == 0 || or_empty(p.port).len() == 0 {
        Some("first_install.start missing slot_id or port"@)
    } else {
        match roster {
            None => Some("no apiary open \u{2014} first_install requires an active apiary"@),
            Some(r) => match first_slot_index(r.devices@, slot) {
                None => Some("E_SLOT_NOT_FOUND: "@ + slot),
                Some(_) => None,
            },
        }
    }
}

/// `e` reports a first-install failure for the payload's slot and port.
pub open spec fn is_first_install_error(e: DeployEmit, p: FirstInstallStart, message: Seq<char>) -> bool {
    e matches DeployEmit::FirstInstallError { slot_id: s, port: q, message: m } && s@ == or_empty(p.slot_id)
        && q@ == or_empty(p.port) && m@ == message
}

fn text_of(s: &Option<String>) -> (r: String)
    ensures
        r@ == or_empty(*s),
{
    match s {
        Some(t) => t.clone(),
        None => String::new(),
    }
}

/// Looks the slot's host board up in the roster (`None` when no apiary
/// is open), or says why the first install is refused.
pub fn resolve_first_install(p: &FirstInstallStart, roster: Option<&Roster>) -> (r: Result<String, DeployEmit>)
    ensures
        match first_install_refusal(*p, opt_roster(roster)) {
            Some(m) => r matches Err(e) && is_first_install_error(e, *p, m),
            None => r matches Ok(host) && host@ == roster->0.devices@[first_slot_index(
                roster->0.devices@,
                or_empty(p.slot_id),
            )->0].host@,
        },
{
    let slot = text_of(&p.slot_id);
    let port = text_of(&p.port);
    if slot.as_str().is_empty() || port.as_str().is_empty() {
        return Err(
            DeployEmit::FirstInstallError {
                slot_id: slot,
                port,
                message: "first_install.start missing slot_id or port".to_string(),
            },
        );
    }
    match roster {
        None => Err(
            DeployEmit::FirstInstallError {
                slot_id: slot,
                port,
                message: "no apiary open \u{2014} first_install requires an active apiary".to_string(),
            },
        ),
        Some(r) => match find_index(r, slot.as_str()) {
            None => {
                let mut m: Vec<char> = chars_of("E_SLOT_NOT_FOUND: ");
                push_str(&mut m, slot.as_str());
                proof {
                    if first_slot_index(r.devices@, slot@) is Some {
                        let j = first_slot_index(r.devices@, slot@)->0;
                        assert(exists|j: int| 0 <= j < r.devices@.len() && r.devices@[j].slot_id@ == slot@);
                    }
                }
                Err(DeployEmit::FirstInstallError { slot_id: slot, port, message: string_from_chars(&m) })
            },
            Some(j) => {
                proof {
                    let ghost devs = r.devices@;
                    assert(0 <= j < devs.len() && devs[j as int].slot_id@ == slot@ && forall|k: int|
                        0 <= k < j ==> devs[k].slot_id@ != slot@);
                    let c = choose|i: int|
                        0 <= i < devs.len() && devs[i].slot_id@ == slot@ && forall|k: int|
                            0 <= k < i ==> devs[k].slot_id@ != slot@;
                    if c < j {
                        assert(devs[c].slot_id@ != slot@);
                    }
                    if j < c {
                        assert(devs[j as int].slot_id@ != slot@);
                    }
                    assert(first_slot_index(devs, slot@) == Some(j as int));
                }
                Ok(r.devices[j].host.clone())
            },
        },
    }
}

/// Where a host board's description lives under the repository root.
pub open spec fn board_toml_spec(repo_root: Seq<char>, host: Seq<char>) -> Seq<char> {
    path_join_spec(path_join_spec(path_join_spec(repo_root, "catalogue/boards"@), host), "board.toml"@)
}

/// The path of a host board's `board.toml`.
pub fn board_toml_path(repo_root: &str, host: &str) -> (r: String)
    ensures
        r@ == board_toml_spec(repo_root@, host@),
{
    let a = path_join(repo_root, "catalogue/boards");
    let b = path_join(a.as_str(), host);
    path_join(b.as_str(), "board.toml")
}

/// `0x` and the lowercase hex of an offset, as `{:x}` writes a signed
/// 64-bit integer (a negative one in two's complement).
pub open spec fn offset_text(i: i64) -> Seq<char> {
    seq!['0', 'x'] + hex_min((i as u64) as nat)
}

/// The first-install settings of a board's `[usb]` table, given whether
/// the table is there, its `esptool_chip_arg` string and its
/// `flash_offsets.ota_0` integer; or what is missing.
pub fn usb_config_from(has_usb: bool, chip_arg: Option<&str>, ota_0: Option<i64>) -> (r: Result<UsbConfig, String>)
    ensures
        !has_usb ==> (r matches Err(m) && m@ == "missing [usb] table"@),
        has_usb && chip_arg is None ==> (r matches Err(m) && m@ == "[usb].esptool_chip_arg missing or not a string"@),
        has_usb && chip_arg is Some && ota_0 is None ==> (r matches Err(m) && m@
            == "[usb].flash_offsets.ota_0 missing or not an integer"@),
        has_usb && chip_arg is Some && ota_0 is Some ==> (r matches Ok(c) && c.esptool_chip_arg@
            == chip_arg->0@ && c.ota_0_offset@ == offset_text(ota_0->0)),
{
    if !has_usb {
        return Err("missing [usb] table".to_string());
    }
    let chip: &str = match chip_arg {
        Some(c) => c,
        None => {
            return Err("[usb].esptool_chip_arg missing or not a string".to_string());
        },
    };
    let off: i64 = match ota_0 {
        Some(o) => o,
        None => {
            return Err("[usb].flash_offsets.ota_0 missing or not an integer".to_string());
        },
    };
    let mut v: Vec<char> = Vec::new();
    v.push('0');
    v.push('x');
    push_hex_min(&mut v, off as u64);
    assert(v@ =~= offset_text(off));
    Ok(UsbConfig { esptool_chip_arg: chip.to_string(), ota_0_offset: string_from_chars(&v) })
}

/// The failure text when a board's USB settings cannot be read.
pub open spec fn usb_config_error(board_path: Seq<char>, e: Seq<char>) -> Seq<char> {
    "E_USB_CONFIG: "@ + board_path + " ("@ + e + ")"@
}

/// `e` starts the flasher on the payload's slot and port with the board's
/// settings, one region (the artefact at `ota_0`) when an artefact is given.
pub open spec fn is_flash_start(e: DeployEmit, p: FirstInstallStart, cfg: UsbConfig) -> bool {
    e matches DeployEmit::FlashStart(f) && f.slot_id@ == or_empty(p.slot_id) && f.port@ == or_empty(p.port)
        && f.chip_arg@ == cfg.esptool_chip_arg@ && f.baud == FIRST_INSTALL_BAUD && f.firmware_sha256 is None
        && match p.artefact_path {
        Some(a) => f.regions@.len() == 1 && f.regions@[0].offset@ == cfg.ota_0_offset@ && f.regions@[0].path@
            == a@,
        None => f.regions@.len() == 0,
    }
}

impl DeploySentant {
    /// Starts the flasher once the board's USB settings are known (the
    /// sentant is then flashing), or reports why they are not.
    pub fn start_flash(&mut self, p: &FirstInstallStart, board_path: &str, usb: Result<UsbConfig, String>) -> (e:
        DeployEmit)
        ensures
            final(self).accounted(),
            final(self).same_batch(*old(self)),
            match usb {
                Ok(cfg) => is_flash_start(e, *p, cfg) && final(self).phase_id() == 1,
                Err(m) => is_first_install_error(e, *p, usb_config_error(board_path@, m@))
                    && final(self).phase_id() == old(self).phase_id(),
            },
    {
        proof {
            use_type_invariant(&*self);
        }
        let slot = text_of(&p.slot_id);
        let port = text_of(&p.port);
        match usb {
            Err(m) => {
                let mut v: Vec<char> = chars_of("E_USB_CONFIG: ");
                push_str(&mut v, board_path);
                push_str(&mut v, " (");
                push_str(&mut v, m.as_str());
                push_str(&mut v, ")");
                assert(v@ =~= usb_config_error(board_path@, m@));
                DeployEmit::FirstInstallError { slot_id: slot, port, message: string_from_chars(&v) }
            },
            Ok(cfg) => {
                let mut regions: Vec<FlashRegion> = Vec::new();
                match &p.artefact_path {
                    Some(a) => {
                        regions.push(FlashRegion { offset: cfg.ota_0_offset.clone(), path: a.clone() });
                    },
                    None => {},
                }
                self.phase = Phase::Flashing;
                DeployEmit::FlashStart(
                    FlashParams {
                        slot_id: slot,
                        port,
                        chip_arg: cfg.esptool_chip_arg,
                        baud: FIRST_INSTALL_BAUD,
                        regions,
                        firmware_sha256: None,
                    },
                )
            },
        }
    }
}

} // verus!

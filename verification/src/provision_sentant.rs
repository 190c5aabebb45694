//! The provision sentant's decisions: it binds a device beaconing in
//! provisioning mode to the one slot waiting for its key, starts the
//! handshake with it (once per address while one is in flight), and when
//! the handshake reports the device's identity it has the certificate
//! written and announces the enrolment for the roster.

use vstd::prelude::*;
use vstd::string::StringSliceAdditionalSpecFns;
use vstd::utf8::{decode_utf8, encode_utf8_decode_utf8, is_char_boundary};

use crate::bridge::registry;
use crate::codec::{hex_decode, hex_decode_spec};
use crate::fnv::{fnv1a_32, str_hash};
use crate::handshake::HandshakeRequest;
use crate::roster::{DeviceRow, Roster};
use crate::text::{chars_of, path_join, path_join_spec, push_str, str_eq, string_from_chars, string_views};
use crate::web::utf8;

verus! {

/// A `device.beacon_observed` payload: the fields this sentant reads.
#[derive(Debug, Clone)]
pub struct BeaconSeen {
    pub ble_addr: Option<String>,
    pub provisioning: Option<bool>,
}

/// A `device.identity_observed` payload.
#[derive(Debug, Clone)]
pub struct IdentitySeen {
    pub ble_addr: Option<String>,
    pub device_pk: Option<String>,
    pub cert_hex: Option<String>,
    pub slot_id_hint: Option<String>,
}

/// What the sentant asks of the host.
#[derive(Debug, Clone)]
pub enum ProvisionEmit {
    /// Fill the handshake worker's request and send it its start command.
    StartHandshake(HandshakeRequest),
    /// Write the certificate to `devices/certs/<device_pk>.bin` of the
    /// open apiary (nothing when none is open; a failure is not fatal).
    WriteCert { device_pk: String, cert: Vec<u8> },
    /// `device.enrolled {slot_id, device_pk, cert_hex, ble_addr}`.
    Enrolled { slot_id: String, device_pk: String, cert_hex: String, ble_addr: String },
    /// Broadcast a plugin's event again under the same hash.
    Rebroadcast { hash: u32, payload: Vec<u8> },
}

/// Which handler an event goes to.
#[derive(Debug, Clone, Copy, PartialEq, Eq, Structural)]
pub enum ProvisionRoute {
    Beacon,
    Identity,
    HandshakeError,
    Ignore,
}

/// The text of an optional field, empty where absent.
pub open spec fn field(s: Option<String>) -> Seq<char> {
    match s {
        Some(t) => t@,
        None => Seq::empty(),
    }
}

/// Is row `i` waiting for its device's key?
pub open spec fn pending_at(devices: Seq<DeviceRow>, i: int) -> bool {
    devices[i].state@ == "flashed_pending_pk"@
}

/// Row `i` is the only one waiting for its device's key.
pub open spec fn only_pending(devices: Seq<DeviceRow>, i: int) -> bool {
    &&& 0 <= i < devices.len()
    &&& pending_at(devices, i)
    &&& forall|j: int| 0 <= j < devices.len() && j != i ==> !pending_at(devices, j)
}

/// The slot of the one row waiting for its device's key; `None` when
/// there is no roster, no such row, or more than one.
pub open spec fn unique_pending(roster: Option<Roster>) -> Option<Seq<char>> {
    match roster {
        None => None,
        Some(r) => if exists|i: int| only_pending(r.devices@, i) {
            Some(r.devices@[choose|i: int| only_pending(r.devices@, i)].slot_id@)
        } else {
            None
        },
    }
}

/// The roster behind an optional reference.
pub open spec fn opt_roster(r: Option<&Roster>) -> Option<Roster> {
    match r {
        Some(x) => Some(*x),
        None => None,
    }
}

/// The first `min(8, len)` bytes of a slot id fall on a character
/// boundary, so the device name can be cut from it.
pub open spec fn name_cut_ok(slot: Seq<char>) -> bool {
    let b = utf8(slot);
    is_char_boundary(b, if b.len() < 8 { b.len() as int } else { 8 })
}

/// `device-` and the first (up to) eight bytes of the slot id.
pub open spec fn device_name_spec(slot: Seq<char>) -> Seq<char> {
    let b = utf8(slot);
    "device-"@ + decode_utf8(b.take(if b.len() < 8 { b.len() as int } else { 8 }))
}

/// The name given to a device in the trust group.
pub fn device_name(slot: &str) -> (r: String)
    requires
        name_cut_ok(slot@),
    ensures
        r@ == device_name_spec(slot@),
{
    let n = slot.as_bytes().len();
    assert(slot.spec_bytes() == utf8(slot@));
    let k: usize = if n < 8 { n } else { 8 };
    let (head, _) = slot.split_at(k);
    proof {
        encode_utf8_decode_utf8(head@);
        assert(utf8(slot@).take(k as int) =~= utf8(slot@).subrange(0, k as int));
    }
    let mut v: Vec<char> = chars_of("device-");
    push_str(&mut v, head);
    string_from_chars(&v)
}

/// Where a device's certificate is written under an apiary directory.
pub open spec fn cert_path_spec(apiary_dir: Seq<char>, device_pk: Seq<char>) -> Seq<char> {
    path_join_spec(path_join_spec(apiary_dir, "devices/certs"@), device_pk + ".bin"@)
}

/// The path of a device's certificate file.
pub fn cert_path(apiary_dir: &str, device_pk: &str) -> (r: String)
    ensures
        r@ == cert_path_spec(apiary_dir@, device_pk@),
{
    let dir = path_join(apiary_dir, "devices/certs");
    let mut f: Vec<char> = chars_of(device_pk);
    push_str(&mut f, ".bin");
    let file = string_from_chars(&f);
    path_join(dir.as_str(), file.as_str())
}

/// The slot of the one row waiting for its device's key, if exactly one
/// is (and a roster is loaded).
pub fn find_unique_pending_slot(roster: Option<&Roster>) -> (r: Option<String>)
    ensures
        match r {
            Some(s) => unique_pending(opt_roster(roster)) == Some(s@),
            None => unique_pending(opt_roster(roster)) is None,
        },
{
    let r = match roster {
        Some(r) => r,
        None => return None,
    };
    let ghost d = r.devices@;
    let mut first: Option<usize> = None;
    let mut i: usize = 0;
    while i < r.devices.len()
        invariant
            d == r.devices@,
            opt_roster(roster) == Some(*r),
            i <= d.len(),
            first is None ==> forall|j: int| 0 <= j < i ==> !pending_at(d, j),
            first matches Some(f) ==> f < i && pending_at(d, f as int) && forall|j: int|
                0 <= j < i && j != f ==> !pending_at(d, j),
        decreases d.len() - i,
    {
        if str_eq(r.devices[i].state.as_str(), "flashed_pending_pk") {
            match first {
                Some(f) => {
                    proof {
                        assert(pending_at(d, i as int));
                        assert forall|k: int| !only_pending(d, k) by {
                            if only_pending(d, k) {
                                if k == f {
                                    assert(!pending_at(d, i as int));
                                } else {
                                    assert(!pending_at(d, f as int));
                                }
                            }
                        }
                    }
                    return None;
                },
                None => {
                    first = Some(i);
                },
            }
        }
        i = i + 1;
    }
    match first {
        None => {
            assert forall|k: int| !only_pending(d, k) by {
                if only_pending(d, k) {
                    assert(!pending_at(d, k));
                }
            }
            None
        },
        Some(f) => {
            assert(only_pending(d, f as int));
            proof {
                let c = choose|k: int| only_pending(d, k);
                if c != f {
                    assert(!pending_at(d, f as int));
                }
            }
            Some(r.devices[f].slot_id.clone())
        },
    }
}

/// The sentant: the addresses with a handshake in flight, and the hashes
/// of the events it consumes.
pub struct ProvisionSentant {
    in_flight: Vec<String>,
    h_beacon: u32,
    h_identity: u32,
    h_handshake_error: u32,
}

/// `device.beacon_observed`.
pub open spec fn beacon_hash() -> u32 { str_hash("r2.composer.device.beacon_observed") }
/// `device.identity_observed`.
pub open spec fn identity_hash() -> u32 { str_hash("r2.composer.device.identity_observed") }
/// `provision.handshake.error`.
pub open spec fn handshake_error_hash() -> u32 { str_hash("r2.composer.provision.handshake.error") }

impl ProvisionSentant {
    #[verifier::type_invariant]
    spec fn well_formed(self) -> bool {
        &&& self.h_beacon == beacon_hash()
        &&& self.h_identity == identity_hash()
        &&& self.h_handshake_error == handshake_error_hash()
        &&& string_views(self.in_flight@).no_duplicates()
    }

    /// The addresses with a handshake in flight.
    pub closed spec fn in_flight(self) -> Set<Seq<char>> {
        string_views(self.in_flight@).to_set()
    }

    /// A sentant with nothing in flight.
    pub fn new() -> (s: Self)
        ensures
            s.in_flight() == Set::<Seq<char>>::empty(),
    {
        let reg = registry();
        let a = reg.hash_of("r2.composer.device.beacon_observed");
        let b = reg.hash_of("r2.composer.device.identity_observed");
        let c = reg.hash_of("r2.composer.provision.handshake.error");
        let s = ProvisionSentant {
            in_flight: Vec::new(),
            h_beacon: a.unwrap(),
            h_identity: b.unwrap(),
            h_handshake_error: c.unwrap(),
        };
        assert(string_views(s.in_flight@).to_set() =~= Set::<Seq<char>>::empty());
        s
    }

    /// The state id (the sentant has one state).
    pub fn state(&self) -> (s: u32)
        ensures
            s == 0,
    {
        0
    }

    /// The class hash naming this sentant.
    pub fn class_hash(&self) -> (h: u32)
        ensures
            h == str_hash("ai.reality2.composer.sentant.provision"),
    {
        fnv1a_32("ai.reality2.composer.sentant.provision")
    }

    /// The sentant's name.
    pub fn name(&self) -> (s: &'static str)
        ensures
            s@ == "Provision"@,
    {
        "Provision"
    }

    /// The events this sentant consumes.
    pub fn subscriptions(&self) -> (v: Vec<u32>)
        ensures
            v@ == seq![beacon_hash(), identity_hash(), handshake_error_hash()],
    {
        proof {
            use_type_invariant(self);
        }
        let mut v: Vec<u32> = Vec::new();
        v.push(self.h_beacon);
        v.push(self.h_identity);
        v.push(self.h_handshake_error);
        v
    }

    /// Routes an event: only those a plugin sent are handled.
    pub fn route(&self, hash: u32, from_plugin: bool) -> (r: ProvisionRoute)
        ensures
            r == if !from_plugin {
                ProvisionRoute::Ignore
            } else if hash == beacon_hash() {
                ProvisionRoute::Beacon
            } else if hash == identity_hash() {
                ProvisionRoute::Identity
            } else if hash == handshake_error_hash() {
                ProvisionRoute::HandshakeError
            } else {
                ProvisionRoute::Ignore
            },
    {
        proof {
            use_type_invariant(self);
        }
        if !from_plugin {
            ProvisionRoute::Ignore
        } else if hash == self.h_beacon {
            ProvisionRoute::Beacon
        } else if hash == self.h_identity {
            ProvisionRoute::Identity
        } else if hash == self.h_handshake_error {
            ProvisionRoute::HandshakeError
        } else {
            ProvisionRoute::Ignore
        }
    }

    /// Is a handshake in flight for `addr`?
    pub fn is_in_flight(&self, addr: &str) -> (r: bool)
        ensures
            r == self.in_flight().contains(addr@),
    {
        self.position(addr).is_some()
    }

    fn position(&self, addr: &str) -> (r: Option<usize>)
        ensures
            match r {
                Some(i) => i < self.in_flight@.len() && self.in_flight@[i as int]@ == addr@
                    && self.in_flight().contains(addr@),
                None => !self.in_flight().contains(addr@),
            },
    {
        let mut i: usize = 0;
        while i < self.in_flight.len()
            invariant
                i <= self.in_flight@.len(),
                forall|j: int| 0 <= j < i ==> self.in_flight@[j]@ != addr@,
            decreases self.in_flight@.len() - i,
        {
            if str_eq(self.in_flight[i].as_str(), addr) {
                assert(string_views(self.in_flight@)[i as int] == addr@);
                return Some(i);
            }
            i = i + 1;
        }
        assert(!string_views(self.in_flight@).contains(addr@)) by {
            if string_views(self.in_flight@).contains(addr@) {
                let j = choose|j: int| 0 <= j < string_views(self.in_flight@).len() && string_views(self.in_flight@)[j] == addr@;
                assert(self.in_flight@[j]@ == addr@);
            }
        }
        None
    }

    fn mark(&mut self, addr: &str)
        requires
            !old(self).in_flight().contains(addr@),
        ensures
            final(self).in_flight() == old(self).in_flight().insert(addr@),
    {
        proof {
            use_type_invariant(&*self);
        }
        let mut v: Vec<String> = Vec::new();
        std::mem::swap(&mut v, &mut self.in_flight);
        let ghost before = v@;
        v.push(addr.to_string());
        proof {
            crate::text::lemma_string_views_push(before, v@.last());
            assert(v@ =~= before.push(v@.last()));
            assert(string_views(v@) == string_views(before).push(addr@));
            string_views(before).lemma_push_to_set_commute(addr@);
            assert forall|i: int, j: int| 0 <= i < j < string_views(v@).len() implies string_views(v@)[i]
                != string_views(v@)[j] by {
                if j == string_views(v@).len() - 1 {
                    assert(string_views(before).contains(string_views(v@)[i]));
                }
            }
        }
        self.in_flight = v;
    }

    fn unmark(&mut self, addr: &str)
        ensures
            final(self).in_flight() == old(self).in_flight().remove(addr@),
    {
        proof {
            use_type_invariant(&*self);
        }
        match self.position(addr) {
            None => {
                assert(old(self).in_flight().remove(addr@) =~= old(self).in_flight());
            },
            Some(i) => {
                let mut v: Vec<String> = Vec::new();
                std::mem::swap(&mut v, &mut self.in_flight);
                let ghost before = v@;
                let ghost bv = string_views(before);
                v.remove(i);
                proof {
                    let av = string_views(v@);
                    assert(av =~= bv.remove(i as int));
                    assert(bv[i as int] == addr@);
                    assert forall|x: Seq<char>| av.to_set().contains(x) <==> bv.to_set().remove(addr@).contains(x) by {
                        if av.contains(x) {
                            let k = choose|k: int| 0 <= k < av.len() && av[k] == x;
                            if k < i {
                                assert(bv[k] == x);
                                assert(k != i);
                            } else {
                                assert(bv[k + 1] == x);
                            }
                        }
                        if bv.contains(x) && x != addr@ {
                            let k = choose|k: int| 0 <= k < bv.len() && bv[k] == x;
                            assert(k != i);
                            if k < i {
                                assert(av[k] == x);
                            } else {
                                assert(av[k - 1] == x);
                            }
                        }
                    }
                    assert(av.to_set() =~= bv.to_set().remove(addr@));
                    assert forall|p: int, q: int| 0 <= p < q < av.len() implies av[p] != av[q] by {
                        let pp = if p < i { p } else { p + 1 };
                        let qq = if q < i { q } else { q + 1 };
                        assert(av[p] == bv[pp]);
                        assert(av[q] == bv[qq]);
                    }
                }
                self.in_flight = v;
            },
        }
    }

    /// A provisioning beacon: unless its address is empty, already in
    /// flight, or there is not exactly one slot waiting for a key, the
    /// address is marked in flight and a handshake bound to that slot is
    /// started.
    pub fn handle_beacon(&mut self, p: &BeaconSeen, roster: Option<&Roster>) -> (r: Option<HandshakeRequest>)
        requires
            ({
                let addr = field(p.ble_addr);
                addr.len() > 0 && p.provisioning == Some(true) && !old(self).in_flight().contains(addr)
            }) ==> (unique_pending(opt_roster(roster)) matches Some(s) ==> name_cut_ok(s)),
        ensures
            ({
                let addr = field(p.ble_addr);
                let go = addr.len() > 0 && p.provisioning == Some(true) && !old(self).in_flight().contains(addr)
                    && unique_pending(opt_roster(roster)) is Some;
                &&& !go ==> r is None && final(self).in_flight() == old(self).in_flight()
                &&& go ==> {
                    let slot = unique_pending(opt_roster(roster))->0;
                    &&& r matches Some(q) && q.ble_addr@ == addr && q.device_name@ == device_name_spec(slot)
                        && (q.slot_id_hint matches Some(h) && h@ == slot)
                    &&& final(self).in_flight() == old(self).in_flight().insert(addr)
                }
            }),
    {
        let addr: &str = match &p.ble_addr {
            Some(a) => a.as_str(),
            None => "",
        };
        proof {
            reveal_strlit("");
        }
        let provisioning: bool = match p.provisioning {
            Some(b) => b,
            None => false,
        };
        if addr.is_empty() || !provisioning {
            return None;
        }
        if self.is_in_flight(addr) {
            return None;
        }
        let slot = match find_unique_pending_slot(roster) {
            Some(s) => s,
            None => return None,
        };
        let name = device_name(slot.as_str());
        self.mark(addr);
        Some(HandshakeRequest { ble_addr: addr.to_string(), device_name: name, slot_id_hint: Some(slot) })
    }
}

/// The slot an identity is enrolled into: the handshake's hint when it
/// gives a non-empty one, else the one slot waiting for a key.
pub open spec fn identity_slot(p: IdentitySeen, roster: Option<Roster>) -> Option<Seq<char>> {
    match p.slot_id_hint {
        Some(h) if h@.len() > 0 => Some(h@),
        _ => unique_pending(roster),
    }
}

impl ProvisionSentant {
    /// An observed identity: ignored without a device key and a
    /// certificate; otherwise the address leaves the in-flight set, and
    /// (when the certificate is hex) the certificate is written and the
    /// device announced enrolled in its slot, when one can be told.
    pub fn handle_identity(&mut self, p: &IdentitySeen, roster: Option<&Roster>) -> (emits: Vec<ProvisionEmit>)
        ensures
            ({
                let addr = field(p.ble_addr);
                let pk = field(p.device_pk);
                let cert = field(p.cert_hex);
                &&& (pk.len() == 0 || cert.len() == 0) ==> emits@.len() == 0 && final(self).in_flight()
                    == old(self).in_flight()
                &&& (pk.len() > 0 && cert.len() > 0) ==> {
                    &&& final(self).in_flight() == if addr.len() > 0 {
                        old(self).in_flight().remove(addr)
                    } else {
                        old(self).in_flight()
                    }
                    &&& match hex_decode_spec(utf8(cert)) {
                        None => emits@.len() == 0,
                        Some(bytes) => {
                            &&& emits@.len() >= 1
                            &&& emits@[0] matches ProvisionEmit::WriteCert { device_pk: d, cert: c } && d@ == pk
                                && c@ == bytes
                            &&& match identity_slot(*p, opt_roster(roster)) {
                                None => emits@.len() == 1,
                                Some(slot) => emits@.len() == 2 && (emits@[1] matches ProvisionEmit::Enrolled {
                                    slot_id: s,
                                    device_pk: d,
                                    cert_hex: x,
                                    ble_addr: a,
                                } && s@ == slot && d@ == pk && x@ == cert && a@ == addr),
                            }
                        },
                    }
                }
            }),
    {
        let addr: &str = match &p.ble_addr {
            Some(a) => a.as_str(),
            None => "",
        };
        let pk: &str = match &p.device_pk {
            Some(a) => a.as_str(),
            None => "",
        };
        let cert_hex: &str = match &p.cert_hex {
            Some(a) => a.as_str(),
            None => "",
        };
        proof {
            reveal_strlit("");
        }
        let mut out: Vec<ProvisionEmit> = Vec::new();
        if pk.is_empty() || cert_hex.is_empty() {
            return out;
        }
        if !addr.is_empty() {
            self.unmark(addr);
        }
        let cert = match hex_decode(cert_hex) {
            Some(b) => b,
            None => return out,
        };
        out.push(ProvisionEmit::WriteCert { device_pk: pk.to_string(), cert });
        let slot: String = match &p.slot_id_hint {
            Some(h) if !h.as_str().is_empty() => h.clone(),
            _ => match find_unique_pending_slot(roster) {
                Some(s) => s,
                None => return out,
            },
        };
        out.push(
            ProvisionEmit::Enrolled {
                slot_id: slot,
                device_pk: pk.to_string(),
                cert_hex: cert_hex.to_string(),
                ble_addr: addr.to_string(),
            },
        );
        out
    }

    /// A failed handshake: the address leaves the in-flight set (so the
    /// next beacon tries again) and the error is broadcast again.
    pub fn handle_handshake_error(&mut self, ble_addr: Option<&str>, payload: &[u8]) -> (e: ProvisionEmit)
        ensures
            e matches ProvisionEmit::Rebroadcast { hash: h, payload: q } && h == handshake_error_hash()
                && q@ == payload@,
            final(self).in_flight() == match ble_addr {
                Some(a) if a@.len() > 0 => old(self).in_flight().remove(a@),
                _ => old(self).in_flight(),
            },
    {
        proof {
            use_type_invariant(&*self);
        }
        let h = self.h_handshake_error;
        match ble_addr {
            Some(a) => {
                if !a.is_empty() {
                    self.unmark(a);
                }
            },
            None => {},
        }
        ProvisionEmit::Rebroadcast { hash: h, payload: vstd::slice::slice_to_vec(payload) }
    }
}

} // verus!

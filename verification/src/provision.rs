//! WiFi credentials of an apiary and the `#wifi_offer` blob handed to a
//! device during BLE bootstrap:
//! `"R2WO" 0x01 [ssid_len] ssid [psk_len] psk [cert_len: u16 BE] cert`.
//! Reading and writing the credentials file is left to the host.

use vstd::prelude::*;

use crate::codec::{hex_encode, hex_lower};
use crate::text::{chars_of, push_dec, push_str, str_eq, string_from_chars, dec_spec};
use crate::web::utf8;

verus! {

/// One named WiFi network.
#[derive(Debug, Clone)]
pub struct WifiNetwork {
    pub name: String,
    pub ssid: String,
    pub psk: String,
    pub is_default: bool,
}

/// The credentials file: every known network.
#[derive(Debug, Clone)]
pub struct WifiNetworksFile {
    pub networks: Vec<WifiNetwork>,
}

/// A request to add or replace a network.
#[derive(Debug, Clone)]
pub struct UpsertPayload {
    pub name: String,
    pub ssid: String,
    pub psk: String,
    pub is_default: bool,
}

/// A request to compose an offer for a slot.
#[derive(Debug, Clone)]
pub struct ComposeOfferRequest {
    pub slot_id: String,
    /// The network to use; `None` picks the default.
    pub network_name: Option<String>,
    /// The device certificate to embed.
    pub cert: Vec<u8>,
}

/// An error of the provisioning plugin: a code and its message.
#[derive(Debug, Clone)]
pub struct ProvisionError {
    pub code: u8,
    pub message: String,
}

/// No apiary is open.
pub const ERR_NO_APIARY: u8 = 0x01;
/// A payload could not be used.
pub const ERR_BAD_PAYLOAD: u8 = 0x02;
/// The credentials file could not be read or written.
pub const ERR_IO: u8 = 0x03;
/// No offer request was deposited.
pub const ERR_NO_REQUEST: u8 = 0x04;
/// No network matches.
pub const ERR_NO_NETWORK: u8 = 0x05;
/// The certificate has the wrong length.
pub const ERR_BAD_CERT: u8 = 0x06;
/// The length of the certificate an offer embeds.
pub const OFFER_CERT_LEN: usize = 144;

/// `n` with its default flag cleared.
pub open spec fn cleared(n: WifiNetwork) -> WifiNetwork {
    WifiNetwork { is_default: false, ..n }
}

/// `nets` with every default flag cleared when `clear` holds.
pub open spec fn maybe_cleared(nets: Seq<WifiNetwork>, clear: bool) -> Seq<WifiNetwork> {
    if clear {
        nets.map_values(|n: WifiNetwork| cleared(n))
    } else {
        nets
    }
}

/// The first position holding a network called `name`.
pub open spec fn first_named(nets: Seq<WifiNetwork>, name: Seq<char>, i: int) -> bool {
    &&& 0 <= i < nets.len()
    &&& nets[i].name@ == name
    &&& forall|j: int| 0 <= j < i ==> (#[trigger] nets[j]).name@ != name
}

/// The list an upsert leaves: defaults cleared first if the new network
/// is the default, then the first network of the same name replaced, or
/// the new one appended when there is none.
pub open spec fn upserted(old: Seq<WifiNetwork>, p: UpsertPayload, new: Seq<WifiNetwork>) -> bool {
    let base = maybe_cleared(old, p.is_default);
    let entry_ok = |e: WifiNetwork|
        e.name@ == p.name@ && e.ssid@ == p.ssid@ && e.psk@ == p.psk@ && e.is_default
            == p.is_default;
    if exists|i: int| first_named(old, p.name@, i) {
        let i = choose|i: int| first_named(old, p.name@, i);
        &&& new.len() == old.len()
        &&& entry_ok(new[i])
        &&& forall|j: int| 0 <= j < new.len() && j != i ==> #[trigger] new[j] == base[j]
    } else {
        &&& new.len() == old.len() + 1
        &&& entry_ok(new[old.len() as int])
        &&& forall|j: int| 0 <= j < old.len() ==> #[trigger] new[j] == base[j]
    }
}

fn find_named(nets: &Vec<WifiNetwork>, name: &str) -> (r: Option<usize>)
    ensures
        match r {
            Some(i) => first_named(nets@, name@, i as int),
            None => forall|i: int| !first_named(nets@, name@, i),
        },
{
    let mut k: usize = 0;
    while k < nets.len()
        invariant
            k <= nets@.len(),
            forall|j: int| 0 <= j < k ==> (#[trigger] nets@[j]).name@ != name@,
        decreases nets@.len() - k,
    {
        if str_eq(nets[k].name.as_str(), name) {
            assert(first_named(nets@, name@, k as int));
            return Some(k);
        }
        k = k + 1;
    }
    assert forall|i: int| !first_named(nets@, name@, i) by {
        if 0 <= i < nets@.len() {
            assert(nets@[i].name@ != name@);
        }
    }
    None
}

/// Adds a network or replaces the first one of the same name; a new
/// default clears every other default.
pub fn upsert_network(f: &mut WifiNetworksFile, p: UpsertPayload)
    ensures
        upserted(old(f).networks@, p, final(f).networks@),
{
    let ghost old_nets = f.networks@;
    let mut nets: Vec<WifiNetwork> = Vec::new();
    std::mem::swap(&mut nets, &mut f.networks);
    if p.is_default {
        let mut i: usize = 0;
        while i < nets.len()
            invariant
                i <= nets@.len(),
                nets@.len() == old_nets.len(),
                forall|j: int| 0 <= j < i ==> #[trigger] nets@[j] == cleared(old_nets[j]),
                forall|j: int| i <= j < nets@.len() ==> #[trigger] nets@[j] == old_nets[j],
            decreases nets@.len() - i,
        {
            let n = nets.remove(i);
            let c = WifiNetwork { is_default: false, ..n };
            nets.insert(i, c);
            i = i + 1;
        }
        assert(nets@ =~= maybe_cleared(old_nets, true));
    }
    let ghost base = nets@;
    assert(base == maybe_cleared(old_nets, p.is_default));
    assert(base.len() == old_nets.len());
    assert(forall|j: int| 0 <= j < base.len() ==> (#[trigger] base[j]).name@ == old_nets[j].name@);
    let found = find_named(&nets, p.name.as_str());
    proof {
        assert forall|i: int| first_named(base, p.name@, i) == first_named(old_nets, p.name@, i) by {
            if 0 <= i < base.len() {
                assert(base[i].name@ == old_nets[i].name@);
                if first_named(base, p.name@, i) {
                    assert forall|j: int| 0 <= j < i implies (#[trigger] old_nets[j]).name@ != p.name@ by {
                        assert(base[j].name@ == old_nets[j].name@);
                    }
                }
                if first_named(old_nets, p.name@, i) {
                    assert forall|j: int| 0 <= j < i implies (#[trigger] base[j]).name@ != p.name@ by {
                        assert(base[j].name@ == old_nets[j].name@);
                    }
                }
            }
        }
    }
    let entry = WifiNetwork { name: p.name, ssid: p.ssid, psk: p.psk, is_default: p.is_default };
    match found {
        Some(k) => {
            nets.remove(k);
            nets.insert(k, entry);
            proof {
                let i = choose|i: int| first_named(old_nets, p.name@, i);
                assert(i == k);
            }
        },
        None => {
            nets.push(entry);
        },
    }
    f.networks = nets;
}

/// At most one network is the default.
pub open spec fn one_default_at_most(nets: Seq<WifiNetwork>) -> bool {
    forall|i: int, j: int|
        0 <= i < j < nets.len() ==> !((#[trigger] nets[i]).is_default && (#[trigger] nets[j]).is_default)
}

/// Upserting keeps at most one default network; upserting a default
/// makes it the only one.
pub proof fn law_upsert_keeps_default_unique(old: Seq<WifiNetwork>, p: UpsertPayload, new: Seq<WifiNetwork>)
    requires
        upserted(old, p, new),
        one_default_at_most(old),
    ensures
        one_default_at_most(new),
        p.is_default ==> forall|i: int|
            0 <= i < new.len() && (#[trigger] new[i]).is_default ==> new[i].name@ == p.name@,
{
    let base = maybe_cleared(old, p.is_default);
    let at = if exists|i: int| first_named(old, p.name@, i) {
        choose|i: int| first_named(old, p.name@, i)
    } else {
        old.len() as int
    };
    assert forall|k: int| 0 <= k < new.len() && k != at implies #[trigger] new[k] == base[k] by {}
    assert forall|k: int| 0 <= k < new.len() && k != at && p.is_default implies !(#[trigger] new[k]).is_default by {
        assert(new[k] == base[k]);
    }
    assert forall|i: int, j: int| 0 <= i < j < new.len() implies !((#[trigger] new[i]).is_default && (#[trigger] new[j]).is_default) by {
        if new[i].is_default && new[j].is_default {
            if p.is_default {
                if i != at {
                    assert(new[i] == base[i]);
                } else {
                    assert(new[j] == base[j]);
                }
            } else {
                assert(i != at && j != at);
                assert(new[i] == old[i] && new[j] == old[j]);
            }
        }
    }
}

/// The network an offer uses: the named one, or else the default, or
/// else the first.
pub open spec fn chosen_network(nets: Seq<WifiNetwork>, name: Option<Seq<char>>, i: int) -> bool {
    match name {
        Some(n) => first_named(nets, n, i),
        None => if exists|j: int| 0 <= j < nets.len() && (#[trigger] nets[j]).is_default {
            &&& 0 <= i < nets.len()
            &&& nets[i].is_default
            &&& forall|j: int| 0 <= j < i ==> !(#[trigger] nets[j]).is_default
        } else {
            i == 0 && nets.len() > 0
        },
    }
}

/// Without a name, an offer always finds a network in a non-empty list:
/// the first default one, or the first one when none is default; only
/// an empty list has none. The choice is a single position.
pub proof fn law_unnamed_offer_network(nets: Seq<WifiNetwork>, i: int, k: int)
    ensures
        nets.len() > 0 <==> exists|j: int| chosen_network(nets, None, j),
        nets.len() > 0 && (forall|j: int| 0 <= j < nets.len() ==> !(#[trigger] nets[j]).is_default)
            ==> chosen_network(nets, None, 0),
        chosen_network(nets, None, i) ==> 0 <= i < nets.len() && (nets[i].is_default || (i == 0 && forall|j: int|
            0 <= j < nets.len() ==> !(#[trigger] nets[j]).is_default)),
        chosen_network(nets, None, i) && chosen_network(nets, None, k) ==> i == k,
{
    if nets.len() > 0 {
        if exists|j: int| 0 <= j < nets.len() && (#[trigger] nets[j]).is_default {
            let j = choose|j: int| 0 <= j < nets.len() && (#[trigger] nets[j]).is_default;
            lemma_first_default(nets, j);
        } else {
            assert(chosen_network(nets, None, 0));
        }
    }
    if chosen_network(nets, None, i) && chosen_network(nets, None, k) && i != k {
        if i < k {
            assert(!nets[i].is_default);
        } else {
            assert(!nets[k].is_default);
        }
    }
}

/// Some default position has a first one before or at it.
proof fn lemma_first_default(nets: Seq<WifiNetwork>, j: int)
    requires
        0 <= j < nets.len(),
        nets[j].is_default,
    ensures
        exists|m: int| chosen_network(nets, None, m),
    decreases j,
{
    if exists|q: int| 0 <= q < j && (#[trigger] nets[q]).is_default {
        let q = choose|q: int| 0 <= q < j && (#[trigger] nets[q]).is_default;
        lemma_first_default(nets, q);
    } else {
        assert(chosen_network(nets, None, j));
    }
}

/// Picks the network an offer uses; `None` when nothing matches.
pub fn select_network(f: &WifiNetworksFile, name: Option<&str>) -> (r: Option<usize>)
    ensures
        match r {
            Some(i) => chosen_network(f.networks@, opt_chars(name), i as int),
            None => forall|i: int| !chosen_network(f.networks@, opt_chars(name), i),
        },
        name is None ==> (r is None <==> f.networks@.len() == 0),
        name is None && f.networks@.len() > 0 && (forall|j: int| 0 <= j < f.networks@.len()
            ==> !(#[trigger] f.networks@[j]).is_default) ==> r == Some(0usize),
{
    proof {
        law_unnamed_offer_network(f.networks@, 0, 0);
    }
    let nets = &f.networks;
    match name {
        Some(n) => find_named(nets, n),
        None => {
            let mut k: usize = 0;
            while k < nets.len()
                invariant
                    k <= nets@.len(),
                    nets@ == f.networks@,
                    name is None,
                    forall|j: int| 0 <= j < k ==> !(#[trigger] nets@[j]).is_default,
                decreases nets@.len() - k,
            {
                if nets[k].is_default {
                    assert(nets@[k as int].is_default);
                    assert(exists|j: int| 0 <= j < f.networks@.len() && (#[trigger] f.networks@[j]).is_default);
                    assert(chosen_network(f.networks@, None, k as int));
                    return Some(k);
                }
                k = k + 1;
            }
            if nets.len() > 0 {
                Some(0)
            } else {
                None
            }
        },
    }
}

/// The text view of an optional string slice.
pub open spec fn opt_chars(s: Option<&str>) -> Option<Seq<char>> {
    match s {
        Some(t) => Some(t@),
        None => None,
    }
}

/// The `#wifi_offer` bytes for a network and a certificate.
pub open spec fn offer_spec(ssid: Seq<u8>, psk: Seq<u8>, cert: Seq<u8>) -> Seq<u8> {
    seq![0x52u8, 0x32u8, 0x57u8, 0x4Fu8, 0x01u8, ssid.len() as u8] + ssid + seq![psk.len() as u8]
        + psk + seq![(cert.len() / 256) as u8, (cert.len() % 256) as u8] + cert
}

/// What an offer emits: the slot, the network name and SSID, and the
/// offer itself in hex (never the PSK on its own).
#[derive(Debug, Clone)]
pub struct OfferComposed {
    pub slot_id: String,
    pub network_name: String,
    pub ssid: String,
    pub offer_len: usize,
    pub offer_hex: String,
}

/// The error for a certificate of the wrong length, if it is one.
pub fn offer_cert_error(req: &ComposeOfferRequest) -> (r: Option<ProvisionError>)
    ensures
        req.cert@.len() == OFFER_CERT_LEN <==> r is None,
        r matches Some(e) ==> e.code == ERR_BAD_CERT && e.message@ == "cert must be 144 bytes, got "@
            + dec_spec(req.cert@.len()),
{
    if req.cert.len() == OFFER_CERT_LEN {
        None
    } else {
        let mut m: Vec<char> = chars_of("cert must be 144 bytes, got ");
        push_dec(&mut m, req.cert.len() as u64);
        Some(ProvisionError { code: ERR_BAD_CERT, message: string_from_chars(&m) })
    }
}

/// Composes the offer for `req` from the known networks: the certificate
/// must be 144 bytes, a network must match, and its SSID and PSK must
/// each fit in 255 bytes.
pub fn compose_offer(req: &ComposeOfferRequest, f: &WifiNetworksFile) -> (r: Result<
    OfferComposed,
    ProvisionError,
>)
    ensures
        req.cert@.len() != OFFER_CERT_LEN ==> (r matches Err(e) && e.code == ERR_BAD_CERT),
        req.cert@.len() == OFFER_CERT_LEN && (forall|i: int|
            !chosen_network(f.networks@, opt_view(req.network_name), i)) ==> (r matches Err(e)
            && e.code == ERR_NO_NETWORK),
        r matches Ok(o) ==> exists|i: int|
            chosen_network(f.networks@, opt_view(req.network_name), i) && offer_fits(
                f.networks@[i],
            ) && o.slot_id@ == req.slot_id@ && o.network_name@ == f.networks@[i].name@
                && o.ssid@ == f.networks@[i].ssid@ && o.offer_hex@ == hex_lower(
                offer_spec(utf8(f.networks@[i].ssid@), utf8(f.networks@[i].psk@), req.cert@),
            ) && o.offer_len == offer_spec(
                utf8(f.networks@[i].ssid@),
                utf8(f.networks@[i].psk@),
                req.cert@,
            ).len(),
        req.cert@.len() == OFFER_CERT_LEN ==> forall|i: int|
            chosen_network(f.networks@, opt_view(req.network_name), i) ==> (offer_fits(
                f.networks@[i],
            ) <==> r is Ok),
{
    if let Some(e) = offer_cert_error(req) {
        return Err(e);
    }
    let sel = match &req.network_name {
        Some(n) => select_network(f, Some(n.as_str())),
        None => select_network(f, None),
    };
    let i = match sel {
        Some(i) => i,
        None => {
            return Err(
                ProvisionError {
                    code: ERR_NO_NETWORK,
                    message: "no matching wifi network — run provision.network.upsert first".to_owned(),
                },
            );
        },
    };
    let net = &f.networks[i];
    let ssid = net.ssid.as_str().as_bytes();
    let psk = net.psk.as_str().as_bytes();
    if ssid.len() > 0xFF || psk.len() > 0xFF {
        return Err(
            ProvisionError { code: ERR_BAD_PAYLOAD, message: "ssid or psk exceeds 255 bytes".to_owned() },
        );
    }
    let mut offer: Vec<u8> = Vec::new();
    offer.push(0x52);
    offer.push(0x32);
    offer.push(0x57);
    offer.push(0x4F);
    offer.push(0x01);
    offer.push(ssid.len() as u8);
    append_bytes(&mut offer, ssid);
    offer.push(psk.len() as u8);
    append_bytes(&mut offer, psk);
    let n = req.cert.len();
    offer.push((n / 256) as u8);
    offer.push((n % 256) as u8);
    append_bytes(&mut offer, req.cert.as_slice());
    assert(offer@ =~= offer_spec(utf8(net.ssid@), utf8(net.psk@), req.cert@));
    let hex = hex_encode(offer.as_slice());
    Ok(
        OfferComposed {
            slot_id: req.slot_id.clone(),
            network_name: net.name.clone(),
            ssid: net.ssid.clone(),
            offer_len: offer.len(),
            offer_hex: hex,
        },
    )
}

/// The SSID and PSK of a network each fit in 255 bytes.
pub open spec fn offer_fits(n: WifiNetwork) -> bool {
    utf8(n.ssid@).len() <= 255 && utf8(n.psk@).len() <= 255
}

/// The view of an optional string.
pub open spec fn opt_view(s: Option<String>) -> Option<Seq<char>> {
    match s {
        Some(t) => Some(t@),
        None => None,
    }
}

fn append_bytes(out: &mut Vec<u8>, b: &[u8])
    ensures
        final(out)@ == old(out)@ + b@,
{
    let ghost start = out@;
    let mut k: usize = 0;
    while k < b.len()
        invariant
            k <= b@.len(),
            out@ == start + b@.take(k as int),
        decreases b@.len() - k,
    {
        out.push(b[k]);
        k = k + 1;
        assert(out@ =~= start + b@.take(k as int));
    }
    assert(b@.take(k as int) =~= b@);
}

/// A network as listed: its name, SSID and whether it is the default;
/// never its PSK.
#[derive(Debug, Clone)]
pub struct NetworkListing {
    pub name: String,
    pub ssid: String,
    pub is_default: bool,
}

/// The listing of the known networks, in order, without their PSKs.
pub fn list_networks(f: &WifiNetworksFile) -> (v: Vec<NetworkListing>)
    ensures
        v@.len() == f.networks@.len(),
        forall|i: int|
            0 <= i < v@.len() ==> (#[trigger] v@[i]).name@ == f.networks@[i].name@ && v@[i].ssid@
                == f.networks@[i].ssid@ && v@[i].is_default == f.networks@[i].is_default,
{
    let mut v: Vec<NetworkListing> = Vec::new();
    let mut i: usize = 0;
    while i < f.networks.len()
        invariant
            i <= f.networks@.len(),
            v@.len() == i,
            forall|k: int|
                0 <= k < i ==> (#[trigger] v@[k]).name@ == f.networks@[k].name@ && v@[k].ssid@
                    == f.networks@[k].ssid@ && v@[k].is_default == f.networks@[k].is_default,
        decreases f.networks@.len() - i,
    {
        let n = &f.networks[i];
        v.push(NetworkListing { name: n.name.clone(), ssid: n.ssid.clone(), is_default: n.is_default });
        i = i + 1;
    }
    v
}

} // verus!

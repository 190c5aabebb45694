//! The web host: an ensemble's `registrations.r2-web` block, its mount
//! prefix, the Ed25519 authentication of `/r2` WebSocket envelopes, and
//! the routing decisions of a raw-frame `/r2/wire` channel.

use vstd::prelude::*;
use vstd::utf8::encode_utf8;

use ed25519_dalek::Verifier;

use crate::codec::{decode_hex_32, decode_hex_64, hex_decode_spec, hex_encode, hex_lower};
use crate::fnv::{fnv1a_32, fnv_spec};
use crate::roster::{DeviceRow, Roster};
use crate::text::{
    chars_of, int_text, is_ws, push_i64, push_str, str_eq, string_from_chars, trim, trim_end_by,
    trim_spec, trim_start_by, lemma_lead_count_prefix, lemma_trail_count_suffix, slice_vec,
    lemma_lead_count_stop, lemma_trail_count_stop, lemma_trim_fixed, trail_count,
};

verus! {

/// A raw-frame channel binding.
#[derive(Debug, Clone, PartialEq)]
pub struct Channel {
    /// Channel name (e.g. `r2`).
    pub name: String,
    /// Sentant the browser's frames are delivered to.
    pub target_sentant: Option<String>,
    /// Max inbound frame size (bytes).
    pub max_frame_bytes: usize,
}

/// An event-to-browser subscription.
#[derive(Debug, Clone, PartialEq)]
pub struct Subscription {
    /// Subscription label.
    pub name: String,
    /// The event name forwarded to subscribers.
    pub event: String,
}

/// An optional GraphQL endpoint.
#[derive(Debug, Clone, PartialEq)]
pub struct GraphQl {
    /// Schema path.
    pub schema: String,
    /// Resolvers identifier.
    pub resolvers: Option<String>,
}

/// A `registrations.r2-web` block of an ensemble.
#[derive(Debug, Clone, PartialEq)]
pub struct R2WebRegistration {
    /// Path prefix the bundle mounts at (`mount`, default `/`).
    pub route_prefix: String,
    /// Bundle directory, relative to the ensemble directory (`bundle`).
    pub static_bundle: String,
    /// Raw-frame channels.
    pub channels: Vec<Channel>,
    /// Engine events streamed to connected browsers.
    pub subscriptions: Vec<Subscription>,
    /// Optional GraphQL endpoint.
    pub graphql: Option<GraphQl>,
    /// Optional large-asset GET routes.
    pub blob_routes: Vec<String>,
    /// Whether to expose diagnostics routes.
    pub diagnostics: bool,
}

/// The default inbound frame cap of a channel.
pub fn default_max_frame_bytes() -> (n: usize)
    ensures
        n == 65536,
{
    65536
}

/// The default mount point when `mount` is omitted.
pub fn default_mount() -> (s: String)
    ensures
        s@ == "/"@,
{
    "/".to_owned()
}

/// The predicate "is the character `ch`".
pub open spec fn is_char(ch: char) -> spec_fn(char) -> bool {
    |c: char| c == ch
}

/// The part of a prefix between its slashes: white space trimmed, then
/// every leading and trailing `/` removed.
pub open spec fn prefix_core(raw: Seq<char>) -> Seq<char> {
    trim_end_by(trim_start_by(trim_spec(raw), is_char('/')), is_char('/'))
}

/// A normalised route prefix: one leading `/` and no trailing `/`; the
/// root is `/`.
pub open spec fn normalised(raw: Seq<char>) -> Seq<char> {
    if prefix_core(raw).len() == 0 {
        seq!['/']
    } else {
        seq!['/'] + prefix_core(raw)
    }
}

/// Normalises a route prefix: exactly one leading `/`, no trailing `/`
/// (except the root); `""` and `"/"` give `"/"`.
pub fn normalise_prefix(raw: &str) -> (r: String)
    ensures
        r@ == normalised(raw@),
        r@.len() >= 1 && r@[0] == '/',
        r@.len() == 1 || r@.last() != '/',
{
    let t = trim(&chars_of(raw));
    let mut i: usize = 0;
    while i < t.len() && t[i] == '/'
        invariant
            i <= t@.len(),
            forall|k: int| 0 <= k < i ==> is_char('/')(t@[k]),
        decreases t@.len() - i,
    {
        i = i + 1;
    }
    proof {
        lemma_lead_count_prefix(t@, is_char('/'), i as int);
    }
    let ghost u = t@.skip(i as int);
    let mut j: usize = t.len();
    while j > i && t[j - 1] == '/'
        invariant
            i <= j <= t@.len(),
            forall|k: int| j <= k < t@.len() ==> is_char('/')(t@[k]),
        decreases j,
    {
        j = j - 1;
    }
    proof {
        lemma_trail_count_suffix(u, is_char('/'), (j - i) as int);
    }
    let core = slice_vec(&t, i, j);
    assert(core@ =~= prefix_core(raw@));
    let mut out: Vec<char> = Vec::new();
    out.push('/');
    crate::text::push_all(&mut out, &core);
    if core.len() == 0 {
        assert(out@ =~= normalised(raw@));
    } else {
        assert(out@ =~= normalised(raw@));
        assert(core@.last() == core@[core@.len() - 1]);
        assert(j == t@.len() || !is_char('/')(t@[j - 1]));
    }
    string_from_chars(&out)
}

/// Normalising twice changes nothing, unless the part between the
/// slashes ends in white space (trimming would then remove it).
pub proof fn law_normalise_idempotent(raw: Seq<char>)
    requires
        !is_ws(normalised(raw).last()),
    ensures
        normalised(normalised(raw)) == normalised(raw),
{
    let n = normalised(raw);
    let core = prefix_core(raw);
    let y = trim_spec(raw);
    let x = trim_start_by(y, is_char('/'));
    lemma_lead_count_stop(y, is_char('/'));
    lemma_trail_count_stop(x, is_char('/'));
    if core.len() > 0 {
        assert(core[0] == x[0]);
        assert(core.last() == x[x.len() - trail_count(x, is_char('/')) - 1]);
        assert(n.last() == core.last());
    }
    lemma_trim_fixed(n);
    if core.len() == 0 {
        lemma_lead_count_prefix(n, is_char('/'), 1);
        assert(trim_start_by(n, is_char('/')) =~= Seq::<char>::empty());
        lemma_trail_count_suffix(Seq::<char>::empty(), is_char('/'), 0);
        assert(prefix_core(n) =~= Seq::<char>::empty());
    } else {
        lemma_lead_count_prefix(n, is_char('/'), 1);
        assert(trim_start_by(n, is_char('/')) =~= core);
        lemma_trail_count_suffix(core, is_char('/'), core.len() as int);
        assert(trim_end_by(core, is_char('/')) =~= core);
        assert(prefix_core(n) =~= core);
    }
}

impl R2WebRegistration {
    /// The mount prefix: leading `/`, no trailing `/` (`/` stays `/`).
    pub fn mount_prefix(&self) -> (r: String)
        ensures
            r@ == normalised(self.route_prefix@),
    {
        normalise_prefix(self.route_prefix.as_str())
    }
}

/// A signed `/r2` WebSocket message envelope.
#[derive(Debug, Clone)]
pub struct WsAuthEnvelope {
    /// 64 hex digits: the 32-byte Ed25519 public key of the device.
    pub device_id: String,
    /// Unix seconds, checked against the replay window.
    pub timestamp: i64,
    /// 128 hex digits: the 64-byte Ed25519 signature.
    pub signature: String,
    /// The message itself, as a JSON string (signed, not interpreted).
    pub payload: String,
}

/// Why a WebSocket message failed authentication; every cause drops the
/// message and keeps the socket.
#[derive(Debug, Clone, Copy, PartialEq, Eq, Structural)]
pub enum AuthError {
    /// Envelope not valid JSON, or signature not 64 bytes of hex.
    Malformed,
    /// `device_id` is not 32 bytes of hex or not a valid Ed25519 point.
    BadDeviceId,
    /// `device_id` is not a provisioned, non-revoked member.
    NotMember,
    /// `timestamp` outside the replay window.
    Expired,
    /// The signature did not verify against `device_id`.
    BadSignature,
}

/// Replay window: a timestamp must be within this many seconds of the
/// server's clock.
pub const REPLAY_WINDOW_SECS: i64 = 60;

/// The UTF-8 bytes of a string view.
pub open spec fn utf8(s: Seq<char>) -> Seq<u8> {
    encode_utf8(s)
}

/// The 32 bytes `hex` decodes to, if it is 64 hex digits.
pub open spec fn hex_32(s: Seq<char>) -> Option<Seq<u8>> {
    match hex_decode_spec(utf8(s)) {
        Some(v) => if v.len() == 32 {
            Some(v)
        } else {
            None
        },
        None => None,
    }
}

/// The 64 bytes `hex` decodes to, if it is 128 hex digits.
pub open spec fn hex_64(s: Seq<char>) -> Option<Seq<u8>> {
    match hex_decode_spec(utf8(s)) {
        Some(v) => if v.len() == 64 {
            Some(v)
        } else {
            None
        },
        None => None,
    }
}

/// The device key an envelope names, if it is 32 bytes of hex that
/// decode to a curve point.
pub open spec fn device_key(e: WsAuthEnvelope) -> Option<Seq<u8>> {
    match hex_32(e.device_id@) {
        Some(pk) => if crate::crypto::ed25519_point_ok(pk) {
            Some(pk)
        } else {
            None
        },
        None => None,
    }
}

/// The text an envelope signs: `"<device_id>:<timestamp>:<payload>"`.
pub open spec fn signed_text(e: WsAuthEnvelope) -> Seq<char> {
    e.device_id@ + ":"@ + int_text(e.timestamp as int) + ":"@ + e.payload@
}

/// `|a - b|`.
pub open spec fn abs_diff(a: int, b: int) -> int {
    if a >= b {
        a - b
    } else {
        b - a
    }
}

/// What remains to check once the device is known to be a live member
/// with key `pk`: the replay window, then the signature.
pub open spec fn after_membership(
    e: WsAuthEnvelope,
    now: i64,
    window: i64,
    pk: Seq<u8>,
) -> Result<Seq<u8>, AuthError> {
    if abs_diff(now as int, e.timestamp as int) > window {
        Err(AuthError::Expired)
    } else {
        match hex_64(e.signature@) {
            None => Err(AuthError::Malformed),
            Some(sig) => if crate::crypto::ed25519_accepts(pk, utf8(signed_text(e)), sig) {
                Ok(pk)
            } else {
                Err(AuthError::BadSignature)
            },
        }
    }
}

/// The key bytes of a successful result.
pub open spec fn key_result(r: Result<[u8; 32], AuthError>) -> Result<Seq<u8>, AuthError> {
    match r {
        Ok(a) => Ok(a@),
        Err(x) => Err(x),
    }
}

/// Authenticates a signed `/r2` envelope; `None` stands for a message that
/// did not parse as an envelope. The device key must decode and be a valid
/// point, then `is_live_member` must accept it (before any signature
/// work), then the timestamp must be within `replay_window_secs` of
/// `now_unix`, and finally the signature must verify over
/// `"<device_id>:<timestamp>:<payload>"`. Returns the device key.
pub fn verify_ws_auth(
    env: Option<&WsAuthEnvelope>,
    now_unix: i64,
    replay_window_secs: i64,
    is_live_member: impl Fn(&[u8; 32]) -> bool,
) -> (r: Result<[u8; 32], AuthError>)
    requires
        forall|a: &[u8; 32]| is_live_member.requires((a,)),
        env matches Some(e) ==> i64::MIN < now_unix - e.timestamp <= i64::MAX,
    ensures
        match env {
            None => r == Err::<[u8; 32], AuthError>(AuthError::Malformed),
            Some(e) => match device_key(*e) {
                None => r == Err::<[u8; 32], AuthError>(AuthError::BadDeviceId),
                Some(pk) => if r == Err::<[u8; 32], AuthError>(AuthError::NotMember) {
                    exists|a: &[u8; 32]| a@ == pk && is_live_member.ensures((a,), false)
                } else {
                    &&& exists|a: &[u8; 32]| a@ == pk && is_live_member.ensures((a,), true)
                    &&& key_result(r) == after_membership(*e, now_unix, replay_window_secs, pk)
                },
            },
        },
{
    let e = match env {
        Some(e) => e,
        None => {
            return Err(AuthError::Malformed);
        },
    };
    let pk_bytes = match decode_hex_32(e.device_id.as_str()) {
        Some(b) => b,
        None => {
            return Err(AuthError::BadDeviceId);
        },
    };
    if !crate::crypto::ed25519_key_valid(&pk_bytes) {
        return Err(AuthError::BadDeviceId);
    }
    if !is_live_member(&pk_bytes) {
        return Err(AuthError::NotMember);
    }
    let diff: i64 = now_unix - e.timestamp;
    let dist: i64 = if diff < 0 {
        -diff
    } else {
        diff
    };
    if dist > replay_window_secs {
        return Err(AuthError::Expired);
    }
    let sig_bytes = match decode_hex_64(e.signature.as_str()) {
        Some(b) => b,
        None => {
            return Err(AuthError::Malformed);
        },
    };
    let mut text: Vec<char> = chars_of(e.device_id.as_str());
    push_str(&mut text, ":");
    push_i64(&mut text, e.timestamp);
    push_str(&mut text, ":");
    push_str(&mut text, e.payload.as_str());
    assert(text@ =~= signed_text(*e));
    let signed = string_from_chars(&text);
    if !crate::crypto::ed25519_verify(&pk_bytes, signed.as_str().as_bytes(), &sig_bytes) {
        return Err(AuthError::BadSignature);
    }
    Ok(pk_bytes)
}

/// A roster row that makes its key a live member: the key matches, the
/// certificate is valid, and the device is neither revoked nor retired.
pub open spec fn live_row(d: DeviceRow, want: Seq<char>) -> bool {
    &&& d.device_pk matches Some(k) && k@ == want
    &&& d.cert_status@ == "valid"@
    &&& d.state@ != "revoked"@
    &&& d.state@ != "retired"@
}

/// Membership for [`verify_ws_auth`] backed by a roster: some row has
/// `device_pk == hex(pk)`, a valid certificate, and a state that is
/// neither `revoked` nor `retired`.
pub fn roster_is_live_member(roster: &Roster, pk: &[u8; 32]) -> (r: bool)
    ensures
        r == exists|i: int|
            0 <= i < roster.devices@.len() && live_row(#[trigger] roster.devices@[i], hex_lower(pk@)),
{
    let want = hex_encode(pk);
    let mut i: usize = 0;
    while i < roster.devices.len()
        invariant
            i <= roster.devices@.len(),
            want@ == hex_lower(pk@),
            forall|k: int| 0 <= k < i ==> !live_row(#[trigger] roster.devices@[k], want@),
        decreases roster.devices@.len() - i,
    {
        let d = &roster.devices[i];
        let key_matches = match &d.device_pk {
            Some(k) => str_eq(k.as_str(), want.as_str()),
            None => false,
        };
        if key_matches && str_eq(d.cert_status.as_str(), "valid") && !str_eq(
            d.state.as_str(),
            "revoked",
        ) && !str_eq(d.state.as_str(), "retired") {
            assert(live_row(roster.devices@[i as int], want@));
            return true;
        }
        i = i + 1;
    }
    false
}

/// What to do with an inbound browser frame.
#[derive(Debug, Clone, PartialEq, Eq)]
pub enum InboundAction {
    /// Forward the frame to the channel's target sentant.
    Inject {
        /// The channel's `target_sentant` (`None`: broadcast to subscribers).
        target: Option<String>,
        /// The opaque frame bytes.
        frame: Vec<u8>,
    },
    /// The frame exceeded `max_frame_bytes` and is dropped.
    RejectOversize {
        /// Received length.
        len: usize,
        /// Configured cap.
        max: usize,
    },
}

/// The character view of an optional string.
pub open spec fn opt_view(s: Option<String>) -> Option<Seq<char>> {
    match s {
        Some(t) => Some(t@),
        None => None,
    }
}

/// The hash an event name is routed by.
pub open spec fn event_hash_of(s: Subscription) -> u32 {
    fnv_spec(utf8(s.event@))
}

/// Routing decisions for one raw-frame `/r2/wire` channel binding.
pub struct WireChannel {
    name: String,
    target_sentant: Option<String>,
    max_frame_bytes: usize,
    /// Hashes of the subscribed event names.
    subscribed_hashes: Vec<u32>,
}

impl WireChannel {
    /// The channel name.
    pub closed spec fn name_view(self) -> Seq<char> {
        self.name@
    }

    /// The sentant inbound frames go to.
    pub closed spec fn target_view(self) -> Option<Seq<char>> {
        opt_view(self.target_sentant)
    }

    /// The inbound frame cap.
    pub closed spec fn max_view(self) -> usize {
        self.max_frame_bytes
    }

    /// The hashes of the events pushed to the browser, in order.
    pub closed spec fn hashes_view(self) -> Seq<u32> {
        self.subscribed_hashes@
    }

    /// Builds a channel from its binding and the registration's
    /// subscriptions.
    pub fn new(ch: &Channel, subscriptions: &[Subscription]) -> (w: Self)
        ensures
            w.name_view() == ch.name@,
            w.target_view() == opt_view(ch.target_sentant),
            w.max_view() == ch.max_frame_bytes,
            w.hashes_view() == subscriptions@.map_values(|s: Subscription| event_hash_of(s)),
    {
        let mut hashes: Vec<u32> = Vec::new();
        let mut i: usize = 0;
        while i < subscriptions.len()
            invariant
                i <= subscriptions@.len(),
                hashes@ == subscriptions@.take(i as int).map_values(
                    |s: Subscription| event_hash_of(s),
                ),
            decreases subscriptions@.len() - i,
        {
            let h = fnv1a_32(subscriptions[i].event.as_str());
            hashes.push(h);
            i = i + 1;
            assert(hashes@ =~= subscriptions@.take(i as int).map_values(
                |s: Subscription| event_hash_of(s),
            ));
        }
        assert(subscriptions@.take(i as int) =~= subscriptions@);
        let target = match &ch.target_sentant {
            Some(t) => Some(t.clone()),
            None => None,
        };
        WireChannel {
            name: ch.name.clone(),
            target_sentant: target,
            max_frame_bytes: ch.max_frame_bytes,
            subscribed_hashes: hashes,
        }
    }

    /// The channel name.
    pub fn name(&self) -> (s: &str)
        ensures
            s@ == self.name_view(),
    {
        self.name.as_str()
    }

    /// Size-gates an inbound frame, then injects it to the target sentant.
    pub fn on_inbound(&self, frame: &[u8]) -> (a: InboundAction)
        ensures
            frame@.len() > self.max_view() ==> (a == (InboundAction::RejectOversize {
                len: frame@.len() as usize,
                max: self.max_view(),
            })),
            frame@.len() <= self.max_view() ==> (a matches InboundAction::Inject { target, frame: f }
                && opt_view(target) == self.target_view() && f@ == frame@),
    {
        if frame.len() > self.max_frame_bytes {
            InboundAction::RejectOversize { len: frame.len(), max: self.max_frame_bytes }
        } else {
            let target = match &self.target_sentant {
                Some(t) => Some(t.clone()),
                None => None,
            };
            InboundAction::Inject { target, frame: vstd::slice::slice_to_vec(frame) }
        }
    }

    /// The payload to push to the browser if this channel subscribes to
    /// `event_hash`; `None` otherwise.
    pub fn outbound_for(&self, event_hash: u32, payload: &[u8]) -> (r: Option<Vec<u8>>)
        ensures
            self.hashes_view().contains(event_hash) ==> (r matches Some(v) && v@ == payload@),
            !self.hashes_view().contains(event_hash) ==> r is None,
    {
        let mut i: usize = 0;
        while i < self.subscribed_hashes.len()
            invariant
                i <= self.subscribed_hashes@.len(),
                forall|k: int| 0 <= k < i ==> self.subscribed_hashes@[k] != event_hash,
            decreases self.subscribed_hashes@.len() - i,
        {
            if self.subscribed_hashes[i] == event_hash {
                assert(self.subscribed_hashes@.contains(event_hash));
                return Some(vstd::slice::slice_to_vec(payload));
            }
            i = i + 1;
        }
        None
    }

    /// The inbound frame cap (bytes).
    pub fn max_frame_bytes(&self) -> (n: usize)
        ensures
            n == self.max_view(),
    {
        self.max_frame_bytes
    }
}

/// A verified inbound frame of the `/r2/wire` channel.
#[derive(Debug, Clone, PartialEq, Eq)]
pub struct WireFrame {
    /// Event hash from the frame header.
    pub event_hash: u32,
    /// Decoded payload bytes.
    pub payload: Vec<u8>,
}

/// Why a `/r2/wire` frame failed frame authentication.
#[derive(Debug, Clone, Copy, PartialEq, Eq)]
pub enum FrameAuthError {
    /// The bytes did not decode as a frame.
    Malformed,
    /// The HMAC tag was absent or did not verify against the group key.
    BadHmac,
}

} // verus!

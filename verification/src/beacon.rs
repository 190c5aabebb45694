//! R2-BEACON Legacy 28-byte advertisement parser (observer side) and the
//! change fingerprint the beacon observer keys its emissions on.
//!
//! Canonical AD layout: length `0x1B`, type `0xFF`, company id (LE),
//! magic `0xB2`, version, flags, 8-byte RBID, 4-byte class hash,
//! TX power (i8), anti-collision (u16 LE), 6 reserved bytes.

use vstd::prelude::*;
use std::collections::hash_map::DefaultHasher;
use std::hash::Hasher;
use vstd::std_specs::hash::DefaultHasherAdditionalSpecFns;

verus! {

/// R2 beacon magic byte (AD offset 4).
pub const R2_BEACON_MAGIC: u8 = 0xB2;

/// Current beacon protocol version.
pub const BEACON_VERSION: u8 = 0x01;

/// Development company id (reserved-for-internal-use).
pub const COMPANY_ID: u16 = 0xFFFF;

/// Length of the canonical Legacy advertisement.
pub const LEGACY_AD_LEN: usize = 28;

/// The flags byte broken out: bit 7 profile, 6 has_bloom, 5 provisioning,
/// 4 mcu_mode, 3 mobile, 2..0 reserved.
#[derive(Debug, Clone, Copy, PartialEq, Eq)]
pub struct BeaconFlags {
    pub profile: u8,
    pub has_bloom: bool,
    pub provisioning: bool,
    pub mcu_mode: bool,
    pub mobile: bool,
}

/// Bit `k` of `byte`.
pub open spec fn bit(byte: u8, k: u8) -> bool {
    (byte >> k) & 1 != 0
}

/// The flags a flags byte denotes.
pub open spec fn decode_spec(byte: u8) -> BeaconFlags {
    BeaconFlags {
        profile: (byte >> 7u8) & 1,
        has_bloom: bit(byte, 6),
        provisioning: bit(byte, 5),
        mcu_mode: bit(byte, 4),
        mobile: bit(byte, 3),
    }
}

/// `0` or `1` for a flag.
pub open spec fn flag_bit(b: bool) -> u8 {
    if b { 1 } else { 0 }
}

/// The flags byte of a set of flags.
pub open spec fn encode_spec(f: BeaconFlags) -> u8 {
    ((f.profile << 7u8) | (flag_bit(f.has_bloom) << 6u8) | (flag_bit(f.provisioning) << 5u8) | (
    flag_bit(f.mcu_mode) << 4u8) | (flag_bit(f.mobile) << 3u8)) as u8
}

impl BeaconFlags {
    /// Breaks a flags byte into its fields.
    pub fn decode(byte: u8) -> (f: Self)
        ensures
            f == decode_spec(byte),
    {
        Self {
            profile: (byte >> 7) & 1,
            has_bloom: (byte >> 6) & 1 != 0,
            provisioning: (byte >> 5) & 1 != 0,
            mcu_mode: (byte >> 4) & 1 != 0,
            mobile: (byte >> 3) & 1 != 0,
        }
    }

    /// Packs the fields back into a flags byte.
    pub fn encode(&self) -> (b: u8)
        ensures
            b == encode_spec(*self),
    {
        let hb: u8 = if self.has_bloom { 1 } else { 0 };
        let pv: u8 = if self.provisioning { 1 } else { 0 };
        let mc: u8 = if self.mcu_mode { 1 } else { 0 };
        let mb: u8 = if self.mobile { 1 } else { 0 };
        (self.profile << 7) | (hb << 6) | (pv << 5) | (mc << 4) | (mb << 3)
    }
}

/// Decoding then encoding keeps the five defined bits and clears the
/// three reserved ones.
pub proof fn lemma_flags_encode_decode(byte: u8)
    ensures
        encode_spec(decode_spec(byte)) == byte & 0xF8,
{
    assert(((((byte >> 7u8) & 1) << 7u8) | ((if (byte >> 6u8) & 1 != 0 { 1u8 } else { 0u8 }) << 6u8)
        | ((if (byte >> 5u8) & 1 != 0 { 1u8 } else { 0u8 }) << 5u8) | ((if (byte >> 4u8) & 1 != 0 {
        1u8
    } else {
        0u8
    }) << 4u8) | ((if (byte >> 3u8) & 1 != 0 { 1u8 } else { 0u8 }) << 3u8)) == byte & 0xF8)
        by (bit_vector);
}

/// Encoding then decoding gives back flags whose profile is a single bit.
pub proof fn lemma_flags_decode_encode(f: BeaconFlags)
    requires
        f.profile <= 1,
    ensures
        decode_spec(encode_spec(f)) == f,
{
    let p = f.profile;
    let hb = flag_bit(f.has_bloom);
    let pv = flag_bit(f.provisioning);
    let mc = flag_bit(f.mcu_mode);
    let mb = flag_bit(f.mobile);
    let b: u8 = ((p << 7u8) | (hb << 6u8) | (pv << 5u8) | (mc << 4u8) | (mb << 3u8)) as u8;
    assert((b >> 7u8) & 1 == p && (b >> 6u8) & 1 == hb && (b >> 5u8) & 1 == pv && (b >> 4u8) & 1
        == mc && (b >> 3u8) & 1 == mb) by (bit_vector)
        requires
            p <= 1,
            hb <= 1,
            pv <= 1,
            mc <= 1,
            mb <= 1,
            b == ((p << 7u8) | (hb << 6u8) | (pv << 5u8) | (mc << 4u8) | (mb << 3u8)) as u8,
    ;
}

/// A parsed Legacy beacon.
#[derive(Debug, Clone, PartialEq, Eq)]
pub struct LegacyBeacon {
    pub version: u8,
    pub flags: BeaconFlags,
    pub rbid: [u8; 8],
    pub class_hash: [u8; 4],
    pub tx_power: i8,
    pub anti_collision: u16,
}

/// Why a buffer is not a Legacy beacon.
#[derive(Debug, Clone, PartialEq, Eq)]
pub enum BeaconError {
    TooShort,
    NotR2Beacon,
    InvalidVersion(u8),
}

/// Why `data` is refused, if it is.
pub open spec fn beacon_error_spec(data: Seq<u8>) -> Option<BeaconError> {
    if data.len() < 28 {
        Some(BeaconError::TooShort)
    } else if data[4] != R2_BEACON_MAGIC {
        Some(BeaconError::NotR2Beacon)
    } else if data[5] != BEACON_VERSION {
        Some(BeaconError::InvalidVersion(data[5]))
    } else {
        None
    }
}

/// `b` is the beacon the (accepted) advertisement `data` carries.
pub open spec fn beacon_fields(data: Seq<u8>, b: LegacyBeacon) -> bool {
    &&& b.version == data[5]
    &&& b.flags == decode_spec(data[6])
    &&& b.rbid@ == data.subrange(7, 15)
    &&& b.class_hash@ == data.subrange(15, 19)
    &&& b.tx_power == data[19] as i8
    &&& b.anti_collision == data[20] as int + 256 * data[21] as int
}

/// Parses a Legacy beacon from the full canonical 28-byte AD (offset 0 is
/// the AD length byte, offset 4 the magic).
pub fn parse_legacy_beacon(data: &[u8]) -> (r: Result<LegacyBeacon, BeaconError>)
    ensures
        match r {
            Ok(b) => beacon_error_spec(data@) is None && beacon_fields(data@, b),
            Err(e) => beacon_error_spec(data@) == Some(e),
        },
{
    if data.len() < 28 {
        return Err(BeaconError::TooShort);
    }
    if data[4] != R2_BEACON_MAGIC {
        return Err(BeaconError::NotR2Beacon);
    }
    let version = data[5];
    if version != BEACON_VERSION {
        return Err(BeaconError::InvalidVersion(version));
    }
    let flags = BeaconFlags::decode(data[6]);
    let mut rbid = [0u8; 8];
    let mut i: usize = 0;
    while i < 8
        invariant
            data@.len() >= 28,
            i <= 8,
            forall|k: int| 0 <= k < i ==> rbid@[k] == data@[7 + k],
        decreases 8 - i,
    {
        rbid[i] = data[7 + i];
        i = i + 1;
    }
    let mut class_hash = [0u8; 4];
    let mut j: usize = 0;
    while j < 4
        invariant
            data@.len() >= 28,
            j <= 4,
            forall|k: int| 0 <= k < j ==> class_hash@[k] == data@[15 + k],
        decreases 4 - j,
    {
        class_hash[j] = data[15 + j];
        j = j + 1;
    }
    assert(rbid@ =~= data@.subrange(7, 15));
    assert(class_hash@ =~= data@.subrange(15, 19));
    let tx_power = data[19] as i8;
    let lo: u8 = data[20];
    let hi: u8 = data[21];
    let anti_collision: u16 = (lo as u16) | ((hi as u16) << 8);
    assert(anti_collision == lo as int + 256 * hi as int) by (bit_vector)
        requires
            anti_collision == (lo as u16) | ((hi as u16) << 8u16),
    ;
    Ok(LegacyBeacon { version, flags, rbid, class_hash, tx_power, anti_collision })
}

/// The canonical AD rebuilt from a platform payload that starts at the
/// magic byte: header `1B FF FF FF`, then up to 24 payload bytes, then zeros.
pub open spec fn reconstruct_spec(payload: Seq<u8>) -> Seq<u8> {
    let n = if payload.len() < 24 { payload.len() as int } else { 24 };
    seq![0x1Bu8, 0xFFu8, 0xFFu8, 0xFFu8] + payload.take(n) + Seq::new((24 - n) as nat, |i: int| 0u8)
}

/// Rebuilds the canonical 28-byte AD from a BLE platform API's
/// manufacturer-data payload, which starts at the magic byte.
pub fn reconstruct_ad(payload: &[u8]) -> (ad: [u8; 28])
    ensures
        ad@ == reconstruct_spec(payload@),
{
    let mut full_ad = [0u8; 28];
    full_ad[0] = 0x1B;
    full_ad[1] = 0xFF;
    full_ad[2] = (COMPANY_ID & 0xFF) as u8;
    full_ad[3] = (COMPANY_ID >> 8) as u8;
    assert((0xFFFFu16 & 0xFF) as u8 == 0xFF && (0xFFFFu16 >> 8u16) as u8 == 0xFF) by (bit_vector);
    let copy_len = if payload.len() < 24 { payload.len() } else { 24 };
    let mut i: usize = 0;
    while i < copy_len
        invariant
            copy_len <= 24,
            copy_len <= payload@.len(),
            i <= copy_len,
            full_ad@.len() == 28,
            full_ad@[0] == 0x1B && full_ad@[1] == 0xFF && full_ad@[2] == 0xFF && full_ad@[3] == 0xFF,
            forall|k: int| 0 <= k < i ==> full_ad@[4 + k] == payload@[k],
            forall|k: int| 4 + i <= k < 28 ==> full_ad@[k] == 0,
        decreases copy_len - i,
    {
        full_ad[4 + i] = payload[i];
        i = i + 1;
    }
    assert(full_ad@ =~= reconstruct_spec(payload@));
    full_ad
}

/// A platform payload that starts with the magic and the current version
/// is accepted after reconstruction, and every canonical field at offset
/// `4 + k` is payload byte `k` (zero past the end of a short payload).
pub proof fn lemma_reconstruct_then_parse(payload: Seq<u8>)
    requires
        payload.len() >= 2,
        payload[0] == R2_BEACON_MAGIC,
        payload[1] == BEACON_VERSION,
    ensures
        beacon_error_spec(reconstruct_spec(payload)) is None,
        forall|k: int| 0 <= k < 24 ==> #[trigger] reconstruct_spec(payload)[4 + k] == if k < payload.len() {
            payload[k]
        } else {
            0u8
        },
{
    let ad = reconstruct_spec(payload);
    assert(ad.len() == 28);
    assert(ad[4] == payload[0]);
    assert(ad[5] == payload[1]);
}

/// The bytes `Hash` writes for a slice's length `n < 256`: the length as a
/// `usize`, least significant byte first.
pub open spec fn length_prefix(n: u8) -> Seq<u8> {
    if usize::BITS == 64 {
        seq![n, 0u8, 0u8, 0u8, 0u8, 0u8, 0u8, 0u8]
    } else {
        seq![n, 0u8, 0u8, 0u8]
    }
}

fn length_prefix_bytes(n: u8) -> (v: Vec<u8>)
    ensures
        v@ == length_prefix(n),
{
    let mut v: Vec<u8> = Vec::new();
    v.push(n);
    let width: u32 = usize::BITS / 8;
    let mut k: u32 = 1;
    while k < width
        invariant
            width == usize::BITS / 8,
            1 <= k <= width,
            v@ == seq![n] + Seq::new((k - 1) as nat, |i: int| 0u8),
        decreases width - k,
    {
        v.push(0);
        k = k + 1;
        assert(v@ =~= seq![n] + Seq::new((k - 1) as nat, |i: int| 0u8));
    }
    assert(v@ =~= length_prefix(n));
    v
}

/// Change fingerprint of a beacon's meaningful contents: what hashing the
/// flags byte, the RBID, the class hash and the anti-collision token with
/// `Hash`, in that order, feeds a fresh `DefaultHasher` (each array
/// preceded by its length; integers in little-endian byte order).
pub open spec fn fingerprint_spec(flags: BeaconFlags, rbid: Seq<u8>, class_hash: Seq<u8>, ac: u16) -> u64 {
    DefaultHasher::spec_finish(
        seq![
            seq![encode_spec(flags)],
            length_prefix(8),
            rbid,
            length_prefix(4),
            class_hash,
            seq![(ac & 0xFF) as u8, (ac >> 8u16) as u8],
        ],
    )
}

/// Hash of the fields that matter for "did this beacon change?".
pub fn fingerprint(flags: &BeaconFlags, rbid: &[u8; 8], class_hash: &[u8; 4], anti_collision: u16) -> (h: u64)
    ensures
        h == fingerprint_spec(*flags, rbid@, class_hash@, anti_collision),
{
    let mut hasher = DefaultHasher::new();
    let e = flags.encode();
    let fb = [e];
    assert(fb@ =~= seq![e]);
    hasher.write(fb.as_slice());
    let p8 = length_prefix_bytes(8);
    hasher.write(p8.as_slice());
    hasher.write(rbid.as_slice());
    let p4 = length_prefix_bytes(4);
    hasher.write(p4.as_slice());
    hasher.write(class_hash.as_slice());
    let lo = (anti_collision & 0xFF) as u8;
    let hi = (anti_collision >> 8) as u8;
    let ac = [lo, hi];
    assert(ac@ =~= seq![lo, hi]);
    hasher.write(ac.as_slice());
    assert(hasher@ =~= seq![
        seq![encode_spec(*flags)],
        length_prefix(8),
        rbid@,
        length_prefix(4),
        class_hash@,
        seq![(anti_collision & 0xFF) as u8, (anti_collision >> 8u16) as u8],
    ]);
    hasher.finish()
}

/// One observed beacon, as published to the bus.
#[derive(Debug, Clone)]
pub struct BeaconObservation {
    /// BLE peripheral address.
    pub ble_addr: String,
    /// The 8-byte RBID in lowercase hex.
    pub rbid: String,
    /// The class hash read big-endian, as `0x` and eight uppercase hex digits.
    pub class_hash: String,
    pub provisioning: bool,
    pub mcu_mode: bool,
    pub mobile: bool,
    /// Advertised TX power (dBm).
    pub tx_power_dbm: i8,
    /// Last RSSI (dBm).
    pub rssi: i16,
    pub anti_collision: u16,
    /// When this address was first seen in this session.
    pub first_seen: String,
    /// When it was last seen.
    pub last_seen: String,
}

/// The class hash bytes read as a big-endian `u32`.
pub open spec fn be_u32(b: Seq<u8>) -> u32 {
    (b[0] as int * 0x1000000 + b[1] as int * 0x10000 + b[2] as int * 0x100 + b[3] as int) as u32
}

/// `obs` reports beacon `b` seen from `addr` at `now` with `rssi`; its
/// first sighting is `first_seen` when known, `now` otherwise.
pub open spec fn observation_of(
    b: LegacyBeacon,
    addr: Seq<char>,
    rssi: i16,
    now: Seq<char>,
    first_seen: Option<Seq<char>>,
    obs: BeaconObservation,
) -> bool {
    &&& obs.ble_addr@ == addr
    &&& obs.rbid@ == crate::codec::hex_lower(b.rbid@)
    &&& obs.class_hash@ == crate::fnv::hex_u32_upper_spec(be_u32(b.class_hash@))
    &&& obs.provisioning == b.flags.provisioning
    &&& obs.mcu_mode == b.flags.mcu_mode
    &&& obs.mobile == b.flags.mobile
    &&& obs.tx_power_dbm == b.tx_power
    &&& obs.rssi == rssi
    &&& obs.anti_collision == b.anti_collision
    &&& obs.first_seen@ == match first_seen {
        Some(f) => f,
        None => now,
    }
    &&& obs.last_seen@ == now
}

/// Reads one peripheral's manufacturer data under the R2 company id:
/// `None` unless it starts with the magic byte and parses as a Legacy
/// beacon; otherwise the observation and its change fingerprint.
pub fn observe(
    mfr: &[u8],
    addr: &str,
    rssi: i16,
    now: &str,
    first_seen: Option<&str>,
) -> (r: Option<(BeaconObservation, u64)>)
    ensures
        (mfr@.len() == 0 || mfr@[0] != R2_BEACON_MAGIC || beacon_error_spec(
            reconstruct_spec(mfr@),
        ) is Some) ==> r is None,
        r matches Some((obs, fp)) ==> exists|b: LegacyBeacon|
            beacon_error_spec(reconstruct_spec(mfr@)) is None && beacon_fields(
                reconstruct_spec(mfr@),
                b,
            ) && observation_of(
                b,
                addr@,
                rssi,
                now@,
                match first_seen {
                    Some(f) => Some(f@),
                    None => None,
                },
                obs,
            ) && fp == fingerprint_spec(b.flags, b.rbid@, b.class_hash@, b.anti_collision),
        !(mfr@.len() == 0 || mfr@[0] != R2_BEACON_MAGIC || beacon_error_spec(
            reconstruct_spec(mfr@),
        ) is Some) ==> r is Some,
{
    if mfr.len() == 0 || mfr[0] != R2_BEACON_MAGIC {
        return None;
    }
    let ad = reconstruct_ad(mfr);
    let b = match parse_legacy_beacon(ad.as_slice()) {
        Ok(b) => b,
        Err(_) => {
            return None;
        },
    };
    let ch = b.class_hash;
    let ch_u32: u32 = (ch[0] as u32) * 0x1000000 + (ch[1] as u32) * 0x10000 + (ch[2] as u32) * 0x100
        + ch[3] as u32;
    let first = match first_seen {
        Some(f) => f.to_owned(),
        None => now.to_owned(),
    };
    let obs = BeaconObservation {
        ble_addr: addr.to_owned(),
        rbid: crate::codec::hex_encode(b.rbid.as_slice()),
        class_hash: crate::fnv::hex_u32_08_upper(ch_u32),
        provisioning: b.flags.provisioning,
        mcu_mode: b.flags.mcu_mode,
        mobile: b.flags.mobile,
        tx_power_dbm: b.tx_power,
        rssi,
        anti_collision: b.anti_collision,
        first_seen: first,
        last_seen: now.to_owned(),
    };
    let fp = fingerprint(&b.flags, &b.rbid, &b.class_hash, b.anti_collision);
    Some((obs, fp))
}

/// An observation reports the class hash big-endian: for an accepted
/// advertisement whose AD carries the class-hash bytes `b0 b1 b2 b3` at
/// offsets 15 to 18, the published text is `0x` and the eight uppercase
/// hex digits of `b0·2²⁴ + b1·2¹⁶ + b2·2⁸ + b3`, the first byte the most
/// significant.
pub proof fn law_observed_class_hash_is_big_endian(
    mfr: Seq<u8>,
    b: LegacyBeacon,
    addr: Seq<char>,
    rssi: i16,
    now: Seq<char>,
    first_seen: Option<Seq<char>>,
    obs: BeaconObservation,
)
    requires
        beacon_error_spec(reconstruct_spec(mfr)) is None,
        beacon_fields(reconstruct_spec(mfr), b),
        observation_of(b, addr, rssi, now, first_seen, obs),
    ensures
        ({
            let d = reconstruct_spec(mfr);
            obs.class_hash@ == seq!['0', 'x'] + crate::fnv::hex_fixed_upper(
                (d[15] as nat) * 0x1000000 + (d[16] as nat) * 0x10000 + (d[17] as nat) * 0x100 + (d[18] as nat),
                8,
            )
        }),
{
    let d = reconstruct_spec(mfr);
    let c = b.class_hash@;
    assert(c[0] == d[15] && c[1] == d[16] && c[2] == d[17] && c[3] == d[18]);
    let v: int = c[0] as int * 0x1000000 + c[1] as int * 0x10000 + c[2] as int * 0x100 + c[3] as int;
    assert(0 <= v < 0x1_0000_0000);
    assert(be_u32(c) as int == v);
}

/// The stream a change fingerprint is the hash of determines every field
/// it covers: the fingerprint is the finish of a byte stream, and two
/// beacons hashed over the same stream agree on the flags byte, the RBID,
/// the class hash and the anti-collision token. A beacon that changes
/// any of them (a re-provisioned device's new token, say) is hashed over
/// a different stream.
pub proof fn law_fingerprint_stream_determines_fields(
    f1: BeaconFlags,
    r1: Seq<u8>,
    c1: Seq<u8>,
    a1: u16,
    f2: BeaconFlags,
    r2: Seq<u8>,
    c2: Seq<u8>,
    a2: u16,
)
    ensures
        exists|s1: Seq<Seq<u8>>, s2: Seq<Seq<u8>>|
            fingerprint_spec(f1, r1, c1, a1) == DefaultHasher::spec_finish(s1) && fingerprint_spec(f2, r2, c2, a2)
                == DefaultHasher::spec_finish(s2) && (s1 == s2 ==> encode_spec(f1) == encode_spec(f2) && r1 == r2
                && c1 == c2 && a1 == a2),
{
    let s1 = seq![
        seq![encode_spec(f1)],
        length_prefix(8),
        r1,
        length_prefix(4),
        c1,
        seq![(a1 & 0xFF) as u8, (a1 >> 8u16) as u8],
    ];
    let s2 = seq![
        seq![encode_spec(f2)],
        length_prefix(8),
        r2,
        length_prefix(4),
        c2,
        seq![(a2 & 0xFF) as u8, (a2 >> 8u16) as u8],
    ];
    if s1 == s2 {
        assert(s1[0][0] == s2[0][0]);
        assert(s1[2] == s2[2]);
        assert(s1[4] == s2[4]);
        assert(s1[5][0] == s2[5][0] && s1[5][1] == s2[5][1]);
        let l1 = (a1 & 0xFF) as u8;
        let h1 = (a1 >> 8u16) as u8;
        let l2 = (a2 & 0xFF) as u8;
        let h2 = (a2 >> 8u16) as u8;
        assert(l1 == l2 && h1 == h2 ==> a1 == a2) by (bit_vector)
            requires
                l1 == (a1 & 0xFF) as u8,
                h1 == (a1 >> 8u16) as u8,
                l2 == (a2 & 0xFF) as u8,
                h2 == (a2 >> 8u16) as u8,
        ;
    }
    assert(fingerprint_spec(f1, r1, c1, a1) == DefaultHasher::spec_finish(s1));
    assert(fingerprint_spec(f2, r2, c2, a2) == DefaultHasher::spec_finish(s2));
}

} // verus!

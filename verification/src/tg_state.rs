//! The on-disk form of an apiary trust group's state (members,
//! revocations, sequence counter), so that it survives restarts:
//!
//! ```text
//!   "R2TG" | version 0x01 | min_crypto_level | sequence: u32 BE | self_cert (147)
//!   | member_count: u16 BE | { name_len: u16 BE | name (UTF-8) | cert (147) }*
//!   | revocation_count: u16 BE | { revocation (107) }*
//! ```
//!
//! Certificates and revocation entries are carried as their raw bytes;
//! decoding them into trust-group objects is the trust layer's business.

use vstd::prelude::*;
use vstd::utf8::{decode_utf8, encode_utf8, encode_utf8_decode_utf8, encode_utf8_valid_utf8, valid_utf8, decode_utf8_encode_utf8};

use crate::fnv::{hex_fixed_upper, push_hex_fixed_upper};
use crate::text::{chars_of, push_str, string_from_chars};
use crate::web::utf8;

verus! {

/// Length of an encoded device certificate.
pub const DEVICE_CERT_LEN: usize = 147;
/// Length of an encoded revocation entry.
pub const REVOCATION_LEN: usize = 107;
/// The format version this code reads and writes.
pub const TG_VERSION: u8 = 0x01;
/// Offset of the member count: magic, version, level, sequence, certificate.
pub const MEMBERS_OFFSET: usize = 157;

/// One member: its name and its certificate bytes.
#[derive(Debug, Clone)]
pub struct TgMember {
    pub name: String,
    pub cert: Vec<u8>,
}

/// The persisted part of a trust group.
#[derive(Debug, Clone)]
pub struct TgStateFile {
    pub min_crypto_level: u8,
    pub sequence: u32,
    pub self_cert: Vec<u8>,
    pub members: Vec<TgMember>,
    pub revocations: Vec<Vec<u8>>,
}

/// Why a state file could not be restored.
#[derive(Debug, Clone, PartialEq, Eq)]
pub enum LoadError {
    Io(String),
    Truncated,
    BadMagic,
    UnknownVersion(u8),
    BadCryptoLevel(u8),
    BadUtf8,
    Cert(String),
    Revocation(String),
    Restore(String),
}

/// The path of the state file under an apiary directory, as
/// `Path::join` forms it: the directory, a separator unless it already
/// ends in one (or is empty), then `devices/tg_state.bin`.
pub open spec fn state_path_spec(apiary_dir: Seq<char>) -> Seq<char> {
    if apiary_dir.len() == 0 || apiary_dir.last() == '/' {
        apiary_dir + "devices/tg_state.bin"@
    } else {
        apiary_dir + seq!['/'] + "devices/tg_state.bin"@
    }
}

/// Where the state file of the apiary at `apiary_dir` lives.
pub fn state_path(apiary_dir: &str) -> (r: String)
    ensures
        r@ == state_path_spec(apiary_dir@),
{
    let d = chars_of(apiary_dir);
    let mut out: Vec<char> = d.clone();
    if d.len() > 0 && d[d.len() - 1] != '/' {
        out.push('/');
    }
    push_str(&mut out, "devices/tg_state.bin");
    assert(out@ =~= state_path_spec(apiary_dir@));
    string_from_chars(&out)
}

impl LoadError {
    /// The text of the error, as it is reported.
    pub open spec fn message_spec(self) -> Seq<char> {
        match self {
            LoadError::Io(e) => "io: "@ + e@,
            LoadError::Truncated => "truncated state file"@,
            LoadError::BadMagic => "bad magic \u{2014} not an R2 TG state file"@,
            LoadError::UnknownVersion(v) => "unknown state version 0x"@ + hex_fixed_upper(v as nat, 2),
            LoadError::BadCryptoLevel(v) => "bad min_crypto_level 0x"@ + hex_fixed_upper(v as nat, 2),
            LoadError::BadUtf8 => "member name is not valid UTF-8"@,
            LoadError::Cert(m) => "DeviceCertificate decode: "@ + m@,
            LoadError::Revocation(m) => "RevocationEntry decode: "@ + m@,
            LoadError::Restore(m) => "TrustGroup::restore: "@ + m@,
        }
    }

    /// The error's text.
    pub fn message(&self) -> (r: String)
        ensures
            r@ == self.message_spec(),
    {
        let mut out: Vec<char> = Vec::new();
        match self {
            LoadError::Io(e) => {
                push_str(&mut out, "io: ");
                push_str(&mut out, e.as_str());
            },
            LoadError::Truncated => push_str(&mut out, "truncated state file"),
            LoadError::BadMagic => push_str(&mut out, "bad magic \u{2014} not an R2 TG state file"),
            LoadError::UnknownVersion(v) => {
                push_str(&mut out, "unknown state version 0x");
                push_hex_fixed_upper(&mut out, *v as u32, 2);
            },
            LoadError::BadCryptoLevel(v) => {
                push_str(&mut out, "bad min_crypto_level 0x");
                push_hex_fixed_upper(&mut out, *v as u32, 2);
            },
            LoadError::BadUtf8 => push_str(&mut out, "member name is not valid UTF-8"),
            LoadError::Cert(m) => {
                push_str(&mut out, "DeviceCertificate decode: ");
                push_str(&mut out, m.as_str());
            },
            LoadError::Revocation(m) => {
                push_str(&mut out, "RevocationEntry decode: ");
                push_str(&mut out, m.as_str());
            },
            LoadError::Restore(m) => {
                push_str(&mut out, "TrustGroup::restore: ");
                push_str(&mut out, m.as_str());
            },
        }
        assert(out@ =~= self.message_spec());
        string_from_chars(&out)
    }
}

/// The file's magic bytes, `"R2TG"`.
pub open spec fn tg_magic() -> Seq<u8> {
    seq![0x52u8, 0x32u8, 0x54u8, 0x47u8]
}

/// A big-endian `u16` field holding `n`.
pub open spec fn be16(n: nat) -> Seq<u8> {
    seq![((n / 256) % 256) as u8, (n % 256) as u8]
}

/// The value of a big-endian `u16` field.
pub open spec fn be16_value(hi: u8, lo: u8) -> nat {
    (hi as nat) * 256 + (lo as nat)
}

/// A big-endian `u32` field holding `n`.
pub open spec fn be32(n: u32) -> Seq<u8> {
    seq![
        ((n as nat / 0x1000000) % 256) as u8,
        ((n as nat / 0x10000) % 256) as u8,
        ((n as nat / 0x100) % 256) as u8,
        (n as nat % 256) as u8,
    ]
}

/// One member's record: name length, name, certificate.
pub open spec fn member_bytes(m: TgMember) -> Seq<u8> {
    be16(utf8(m.name@).len()) + utf8(m.name@) + m.cert@
}

/// The member records in order.
pub open spec fn members_bytes(ms: Seq<TgMember>) -> Seq<u8>
    decreases ms.len(),
{
    if ms.len() == 0 {
        Seq::empty()
    } else {
        member_bytes(ms[0]) + members_bytes(ms.drop_first())
    }
}

/// The revocation entries in order.
pub open spec fn revocations_bytes(rs: Seq<Vec<u8>>) -> Seq<u8>
    decreases rs.len(),
{
    if rs.len() == 0 {
        Seq::empty()
    } else {
        rs[0]@ + revocations_bytes(rs.drop_first())
    }
}

/// The whole file for `s`.
pub open spec fn tg_bytes(s: TgStateFile) -> Seq<u8> {
    tg_magic() + seq![TG_VERSION, s.min_crypto_level] + be32(s.sequence) + s.self_cert@ + be16(
        s.members@.len(),
    ) + members_bytes(s.members@) + be16(s.revocations@.len()) + revocations_bytes(s.revocations@)
}

/// Every certificate and revocation entry has its fixed length.
pub open spec fn tg_parts_sized(s: TgStateFile) -> bool {
    &&& s.self_cert@.len() == DEVICE_CERT_LEN
    &&& forall|i: int| 0 <= i < s.members@.len() ==> (#[trigger] s.members@[i]).cert@.len() == DEVICE_CERT_LEN
    &&& forall|i: int| 0 <= i < s.revocations@.len() ==> (#[trigger] s.revocations@[i])@.len() == REVOCATION_LEN
}

/// Every name and count fits its 16-bit length field.
pub open spec fn tg_fits(s: TgStateFile) -> bool {
    &&& s.members@.len() <= 0xFFFF
    &&& forall|i: int| 0 <= i < s.members@.len() ==> utf8((#[trigger] s.members@[i]).name@).len() <= 0xFFFF
    &&& s.revocations@.len() <= 0xFFFF
}

/// A state that the file format can hold.
pub open spec fn tg_state_wf(s: TgStateFile) -> bool {
    tg_parts_sized(s) && tg_fits(s)
}

/// The first member (from the front) whose name is too long for its field.
pub open spec fn first_long_name(ms: Seq<TgMember>, i: int) -> bool {
    &&& 0 <= i < ms.len()
    &&& utf8(ms[i].name@).len() > 0xFFFF
    &&& forall|j: int| 0 <= j < i ==> utf8((#[trigger] ms[j]).name@).len() <= 0xFFFF
}

pub proof fn lemma_members_bytes_push(ms: Seq<TgMember>, m: TgMember)
    ensures
        members_bytes(ms.push(m)) == members_bytes(ms) + member_bytes(m),
    decreases ms.len(),
{
    if ms.len() == 0 {
        assert(ms.push(m).drop_first() =~= Seq::<TgMember>::empty());
        assert(members_bytes(Seq::<TgMember>::empty()) =~= Seq::<u8>::empty());
        assert(ms.push(m)[0] == m);
        assert(members_bytes(ms.push(m)) =~= member_bytes(m));
    } else {
        assert(ms.push(m).drop_first() =~= ms.drop_first().push(m));
        lemma_members_bytes_push(ms.drop_first(), m);
        assert(members_bytes(ms.push(m)) =~= members_bytes(ms) + member_bytes(m));
    }
}

pub proof fn lemma_revocations_bytes_push(rs: Seq<Vec<u8>>, r: Vec<u8>)
    ensures
        revocations_bytes(rs.push(r)) == revocations_bytes(rs) + r@,
    decreases rs.len(),
{
    if rs.len() == 0 {
        assert(rs.push(r).drop_first() =~= Seq::<Vec<u8>>::empty());
        assert(revocations_bytes(Seq::<Vec<u8>>::empty()) =~= Seq::<u8>::empty());
        assert(rs.push(r)[0] == r);
        assert(revocations_bytes(rs.push(r)) =~= r@);
    } else {
        assert(rs.push(r).drop_first() =~= rs.drop_first().push(r));
        lemma_revocations_bytes_push(rs.drop_first(), r);
        assert(revocations_bytes(rs.push(r)) =~= revocations_bytes(rs) + r@);
    }
}

fn append_bytes(out: &mut Vec<u8>, b: &[u8])
    ensures
        final(out)@ == old(out)@ + b@,
{
    let ghost start = out@;
    let mut k: usize = 0;
    while k < b.len()
        invariant
            k <= b@.len(),
            out@ == start + b@.take(k as int),
        decreases b@.len() - k,
    {
        out.push(b[k]);
        k = k + 1;
        assert(out@ =~= start + b@.take(k as int));
    }
    assert(b@.take(k as int) =~= b@);
}

fn push_be16(out: &mut Vec<u8>, n: usize)
    requires
        n <= 0xFFFF,
    ensures
        final(out)@ == old(out)@ + be16(n as nat),
{
    out.push((n / 256) as u8);
    out.push((n % 256) as u8);
    assert(out@ =~= old(out)@ + be16(n as nat));
}

/// Serialises a trust-group state; refuses one whose member count, a
/// member name, or revocation count overflows its 16-bit field.
pub fn encode_tg_state(s: &TgStateFile) -> (r: Result<Vec<u8>, String>)
    requires
        tg_parts_sized(*s),
    ensures
        tg_fits(*s) <==> r is Ok,
        r matches Ok(b) ==> b@ == tg_bytes(*s),
        r matches Err(m) ==> m@ == if s.members@.len() > 0xFFFF {
            "too many members to persist (u16 cap)"@
        } else if exists|i: int| first_long_name(s.members@, i) {
            "member name too long"@
        } else {
            "too many revocations"@
        },
{
    let mut buf: Vec<u8> = Vec::new();
    buf.push(0x52);
    buf.push(0x32);
    buf.push(0x54);
    buf.push(0x47);
    buf.push(TG_VERSION);
    buf.push(s.min_crypto_level);
    let q = s.sequence;
    buf.push((q / 0x1000000) as u8);
    buf.push(((q / 0x10000) % 256) as u8);
    buf.push(((q / 0x100) % 256) as u8);
    buf.push((q % 256) as u8);
    assert(buf@ =~= tg_magic() + seq![TG_VERSION, s.min_crypto_level] + be32(s.sequence));
    append_bytes(&mut buf, s.self_cert.as_slice());
    if s.members.len() > 0xFFFF {
        return Err("too many members to persist (u16 cap)".to_owned());
    }
    push_be16(&mut buf, s.members.len());
    let ghost head = buf@;
    let mut i: usize = 0;
    while i < s.members.len()
        invariant
            i <= s.members@.len(),
            s.members@.len() <= 0xFFFF,
            buf@ == head + members_bytes(s.members@.take(i as int)),
            forall|j: int| 0 <= j < i ==> utf8((#[trigger] s.members@[j]).name@).len() <= 0xFFFF,
        decreases s.members@.len() - i,
    {
        let m = &s.members[i];
        let name_bytes = m.name.as_str().as_bytes();
        if name_bytes.len() > 0xFFFF {
            assert(first_long_name(s.members@, i as int));
            return Err("member name too long".to_owned());
        }
        push_be16(&mut buf, name_bytes.len());
        append_bytes(&mut buf, name_bytes);
        append_bytes(&mut buf, m.cert.as_slice());
        proof {
            assert(s.members@.take(i as int + 1) =~= s.members@.take(i as int).push(s.members@[i as int]));
            lemma_members_bytes_push(s.members@.take(i as int), s.members@[i as int]);
        }
        i = i + 1;
        assert(buf@ =~= head + members_bytes(s.members@.take(i as int)));
    }
    assert(s.members@.take(i as int) =~= s.members@);
    assert(!exists|k: int| first_long_name(s.members@, k));
    if s.revocations.len() > 0xFFFF {
        return Err("too many revocations".to_owned());
    }
    push_be16(&mut buf, s.revocations.len());
    let ghost head2 = buf@;
    let mut k: usize = 0;
    while k < s.revocations.len()
        invariant
            k <= s.revocations@.len(),
            buf@ == head2 + revocations_bytes(s.revocations@.take(k as int)),
        decreases s.revocations@.len() - k,
    {
        append_bytes(&mut buf, s.revocations[k].as_slice());
        proof {
            assert(s.revocations@.take(k as int + 1) =~= s.revocations@.take(k as int).push(s.revocations@[k as int]));
            lemma_revocations_bytes_push(s.revocations@.take(k as int), s.revocations@[k as int]);
        }
        k = k + 1;
        assert(buf@ =~= head2 + revocations_bytes(s.revocations@.take(k as int)));
    }
    assert(s.revocations@.take(k as int) =~= s.revocations@);
    assert(buf@ =~= tg_bytes(*s));
    Ok(buf)
}

/// Walks `n` member records starting at `off`: the offset just past
/// them, or the first framing error met on the way.
pub open spec fn members_walk(b: Seq<u8>, off: int, n: nat) -> Result<int, LoadError>
    decreases n,
{
    if n == 0 {
        Ok(off)
    } else {
        match members_walk(b, off, (n - 1) as nat) {
            Err(e) => Err(e),
            Ok(o) => if o + 2 > b.len() {
                Err(LoadError::Truncated)
            } else {
                let nl = be16_value(b[o], b[o + 1]) as int;
                if o + 2 + nl + DEVICE_CERT_LEN > b.len() {
                    Err(LoadError::Truncated)
                } else if !valid_utf8(b.subrange(o + 2, o + 2 + nl)) {
                    Err(LoadError::BadUtf8)
                } else {
                    Ok(o + 2 + nl + DEVICE_CERT_LEN)
                }
            },
        }
    }
}

/// Why `b` is not a state file this code can read, if it is not: not
/// identified as one (too short or wrong magic), another version, or cut
/// short (or a member name that is not UTF-8) somewhere in its records.
/// Bytes after the last revocation are ignored.
pub open spec fn tg_parse_error(b: Seq<u8>) -> Option<LoadError> {
    if b.len() < 6 || b.take(4) != tg_magic() {
        Some(LoadError::BadMagic)
    } else if b[4] != TG_VERSION {
        Some(LoadError::UnknownVersion(b[4]))
    } else if b.len() < MEMBERS_OFFSET + 2 {
        Some(LoadError::Truncated)
    } else {
        match members_walk(b, MEMBERS_OFFSET + 2, be16_value(b[157], b[158])) {
            Err(e) => Some(e),
            Ok(off) => if off + 2 > b.len() {
                Some(LoadError::Truncated)
            } else if off + 2 + be16_value(b[off], b[off + 1]) * REVOCATION_LEN > b.len() {
                Some(LoadError::Truncated)
            } else {
                None
            },
        }
    }
}

proof fn lemma_walk_error_persists(b: Seq<u8>, off: int, k: nat, n: nat)
    requires
        k <= n,
        members_walk(b, off, k) is Err,
    ensures
        members_walk(b, off, n) == members_walk(b, off, k),
    decreases n - k,
{
    if k < n {
        lemma_walk_error_persists(b, off, k, (n - 1) as nat);
    }
}

/// `std::str::from_utf8(bytes)`, as an owned string: the text whose
/// UTF-8 encoding is exactly `bytes`, when they are valid UTF-8.
#[verifier::external_body]
fn utf8_text(bytes: &[u8]) -> (r: Option<String>)
    ensures
        match r {
            Some(s) => valid_utf8(bytes@) && utf8(s@) == bytes@,
            None => !valid_utf8(bytes@),
        },
{
    match std::str::from_utf8(bytes) {
        Ok(s) => Some(s.to_string()),
        Err(_) => None,
    }
}

fn copy_range(b: &[u8], from: usize, to: usize) -> (v: Vec<u8>)
    requires
        from <= to <= b@.len(),
    ensures
        v@ == b@.subrange(from as int, to as int),
{
    let mut v: Vec<u8> = Vec::new();
    let mut k: usize = from;
    while k < to
        invariant
            from <= k <= to,
            to <= b@.len(),
            v@ == b@.subrange(from as int, k as int),
        decreases to - k,
    {
        v.push(b[k]);
        k = k + 1;
        assert(v@ =~= b@.subrange(from as int, k as int));
    }
    v
}

proof fn lemma_be16_bytes(hi: u8, lo: u8)
    ensures
        be16(be16_value(hi, lo)) == seq![hi, lo],
        be16_value(hi, lo) <= 0xFFFF,
{
    let n = be16_value(hi, lo);
    assert(n / 256 == hi as nat && n % 256 == lo as nat) by (nonlinear_arith)
        requires
            n == (hi as nat) * 256 + (lo as nat),
            hi < 256,
            lo < 256,
    ;
    assert(be16(n) =~= seq![hi, lo]);
}

proof fn lemma_be32_bytes(b0: u8, b1: u8, b2: u8, b3: u8, q: u32)
    requires
        q as nat == (b0 as nat) * 0x1000000 + (b1 as nat) * 0x10000 + (b2 as nat) * 0x100 + (b3 as nat),
    ensures
        be32(q) == seq![b0, b1, b2, b3],
{
    let n = q as nat;
    assert(n / 0x1000000 % 256 == b0 as nat && n / 0x10000 % 256 == b1 as nat && n / 0x100 % 256
        == b2 as nat && n % 256 == b3 as nat) by (nonlinear_arith)
        requires
            n == (b0 as nat) * 0x1000000 + (b1 as nat) * 0x10000 + (b2 as nat) * 0x100 + (b3 as nat),
            b0 < 256,
            b1 < 256,
            b2 < 256,
            b3 < 256,
    ;
    assert(be32(q) =~= seq![b0, b1, b2, b3]);
}

/// Restores a trust-group state from its file bytes.
pub fn decode_tg_state(b: &[u8]) -> (r: Result<TgStateFile, LoadError>)
    ensures
        match r {
            Ok(s) => tg_parse_error(b@) is None && tg_state_wf(s) && tg_bytes(s).is_prefix_of(b@),
            Err(e) => tg_parse_error(b@) == Some(e),
        },
{
    if b.len() < 6 || !(b[0] == 0x52 && b[1] == 0x32 && b[2] == 0x54 && b[3] == 0x47) {
        proof {
            if b@.len() >= 6 {
                assert(b@.take(4)[0] == b@[0] && b@.take(4)[1] == b@[1] && b@.take(4)[2] == b@[2]
                    && b@.take(4)[3] == b@[3]);
                assert(b@.take(4) != tg_magic());
            }
        }
        return Err(LoadError::BadMagic);
    }
    assert(b@.take(4) =~= tg_magic());
    if b[4] != TG_VERSION {
        return Err(LoadError::UnknownVersion(b[4]));
    }
    if b.len() < MEMBERS_OFFSET + 2 {
        return Err(LoadError::Truncated);
    }
    let level = b[5];
    let sequence: u32 = (b[6] as u32) * 0x1000000 + (b[7] as u32) * 0x10000 + (b[8] as u32) * 0x100
        + b[9] as u32;
    proof {
        lemma_be32_bytes(b[6], b[7], b[8], b[9], sequence);
    }
    let self_cert = copy_range(b, 10, MEMBERS_OFFSET);
    let n: usize = (b[157] as usize) * 256 + b[158] as usize;
    proof {
        lemma_be16_bytes(b[157], b[158]);
    }
    let mut off: usize = MEMBERS_OFFSET + 2;
    let mut members: Vec<TgMember> = Vec::new();
    let mut k: usize = 0;
    while k < n
        invariant
            b@.len() >= MEMBERS_OFFSET + 2,
            b@.take(4) == tg_magic(),
            b@[4] == TG_VERSION,
            n == be16_value(b@[157], b@[158]),
            k <= n,
            MEMBERS_OFFSET + 2 <= off <= b@.len(),
            members_walk(b@, MEMBERS_OFFSET + 2, k as nat) == Ok::<int, LoadError>(off as int),
            b@.subrange(MEMBERS_OFFSET + 2, off as int) == members_bytes(members@),
            members@.len() == k,
            forall|j: int|
                0 <= j < k ==> (#[trigger] members@[j]).cert@.len() == DEVICE_CERT_LEN && utf8(
                    members@[j].name@,
                ).len() <= 0xFFFF,
        decreases n - k,
    {
        if b.len() - off < 2 {
            proof {
                lemma_walk_error_persists(b@, MEMBERS_OFFSET + 2, (k + 1) as nat, n as nat);
            }
            return Err(LoadError::Truncated);
        }
        let nl: usize = (b[off] as usize) * 256 + b[off + 1] as usize;
        proof {
            lemma_be16_bytes(b[off as int], b[off + 1]);
        }
        if b.len() - off - 2 < nl + DEVICE_CERT_LEN {
            proof {
                lemma_walk_error_persists(b@, MEMBERS_OFFSET + 2, (k + 1) as nat, n as nat);
            }
            return Err(LoadError::Truncated);
        }
        let name_bytes = copy_range(b, off + 2, off + 2 + nl);
        let name = match utf8_text(name_bytes.as_slice()) {
            Some(t) => t,
            None => {
                proof {
                    lemma_walk_error_persists(b@, MEMBERS_OFFSET + 2, (k + 1) as nat, n as nat);
                }
                return Err(LoadError::BadUtf8);
            },
        };
        let cert = copy_range(b, off + 2 + nl, off + 2 + nl + DEVICE_CERT_LEN);
        let m = TgMember { name, cert };
        proof {
            lemma_members_bytes_push(members@, m);
            assert(member_bytes(m) =~= b@.subrange(off as int, off + 2 + nl + DEVICE_CERT_LEN));
            assert(b@.subrange(MEMBERS_OFFSET + 2, off + 2 + nl + DEVICE_CERT_LEN) =~= b@.subrange(
                MEMBERS_OFFSET + 2,
                off as int,
            ) + b@.subrange(off as int, off + 2 + nl + DEVICE_CERT_LEN));
        }
        members.push(m);
        off = off + 2 + nl + DEVICE_CERT_LEN;
        k = k + 1;
    }
    let members_end = off;
    if b.len() - off < 2 {
        return Err(LoadError::Truncated);
    }
    let rc: usize = (b[off] as usize) * 256 + b[off + 1] as usize;
    proof {
        lemma_be16_bytes(b[off as int], b[off + 1]);
    }
    off = off + 2;
    let mut revocations: Vec<Vec<u8>> = Vec::new();
    let mut j: usize = 0;
    while j < rc
        invariant
            j <= rc,
            b@.len() >= MEMBERS_OFFSET + 2,
            b@.take(4) == tg_magic(),
            b@[4] == TG_VERSION,
            members_walk(b@, MEMBERS_OFFSET + 2, be16_value(b@[157], b@[158])) == Ok::<int, LoadError>(members_end as int),
            rc == be16_value(b@[members_end as int], b@[members_end + 1]),
            members_end + 2 <= b@.len(),
            off == members_end + 2 + j * REVOCATION_LEN,
            off <= b@.len(),
            b@.subrange(members_end + 2, off as int) == revocations_bytes(revocations@),
            revocations@.len() == j,
            forall|i: int| 0 <= i < j ==> (#[trigger] revocations@[i])@.len() == REVOCATION_LEN,
        decreases rc - j,
    {
        if b.len() - off < REVOCATION_LEN {
            assert(members_end + 2 + rc * REVOCATION_LEN > b@.len()) by (nonlinear_arith)
                requires
                    off == members_end + 2 + j * REVOCATION_LEN,
                    off + REVOCATION_LEN > b@.len(),
                    j < rc,
                    REVOCATION_LEN == 107,
            ;
            return Err(LoadError::Truncated);
        }
        let entry = copy_range(b, off, off + REVOCATION_LEN);
        proof {
            lemma_revocations_bytes_push(revocations@, entry);
            assert(b@.subrange(members_end + 2, off + REVOCATION_LEN) =~= b@.subrange(
                members_end + 2,
                off as int,
            ) + entry@);
        }
        revocations.push(entry);
        off = off + REVOCATION_LEN;
        j = j + 1;
        assert(off == members_end + 2 + j * REVOCATION_LEN) by (nonlinear_arith)
            requires
                off == members_end + 2 + (j - 1) * REVOCATION_LEN + REVOCATION_LEN,
        ;
    }
    let s = TgStateFile { min_crypto_level: level, sequence, self_cert, members, revocations };
    proof {
        assert(tg_bytes(s) =~= b@.subrange(0, off as int));
        assert(tg_bytes(s).is_prefix_of(b@));
    }
    Ok(s)
}

/// Two states hold the same content.
pub open spec fn same_state(a: TgStateFile, b: TgStateFile) -> bool {
    &&& a.min_crypto_level == b.min_crypto_level
    &&& a.sequence == b.sequence
    &&& a.self_cert@ == b.self_cert@
    &&& a.members@.len() == b.members@.len()
    &&& forall|i: int|
        0 <= i < a.members@.len() ==> (#[trigger] a.members@[i]).name@ == b.members@[i].name@
            && a.members@[i].cert@ == b.members@[i].cert@
    &&& a.revocations@.len() == b.revocations@.len()
    &&& forall|i: int| 0 <= i < a.revocations@.len() ==> (#[trigger] a.revocations@[i])@ == b.revocations@[i]@
}

proof fn lemma_be16_value_of(n: nat)
    requires
        n <= 0xFFFF,
    ensures
        be16_value(be16(n)[0], be16(n)[1]) == n,
{
    let hi = ((n / 256) % 256) as u8;
    let lo = (n % 256) as u8;
    assert(hi as nat * 256 + lo as nat == n) by (nonlinear_arith)
        requires
            n <= 0xFFFF,
            hi as nat == (n / 256) % 256,
            lo as nat == n % 256,
    ;
}

proof fn lemma_be32_value_of(q: u32)
    ensures
        q as nat == (be32(q)[0] as nat) * 0x1000000 + (be32(q)[1] as nat) * 0x10000 + (be32(q)[2] as nat)
            * 0x100 + (be32(q)[3] as nat),
{
    let n = q as nat;
    assert(n == ((n / 0x1000000) % 256) * 0x1000000 + ((n / 0x10000) % 256) * 0x10000 + ((n / 0x100)
        % 256) * 0x100 + n % 256) by (nonlinear_arith)
        requires
            n < 0x1_0000_0000,
    ;
}

proof fn lemma_members_prefix(ms: Seq<TgMember>, k: int)
    requires
        0 <= k <= ms.len(),
    ensures
        members_bytes(ms.take(k)).is_prefix_of(members_bytes(ms)),
    decreases ms.len() - k,
{
    if k < ms.len() {
        lemma_members_prefix(ms, k + 1);
        assert(ms.take(k + 1) =~= ms.take(k).push(ms[k]));
        lemma_members_bytes_push(ms.take(k), ms[k]);
    } else {
        assert(ms.take(k) =~= ms);
    }
}

proof fn lemma_revocations_len(rs: Seq<Vec<u8>>)
    requires
        forall|i: int| 0 <= i < rs.len() ==> (#[trigger] rs[i])@.len() == REVOCATION_LEN,
    ensures
        revocations_bytes(rs).len() == rs.len() * REVOCATION_LEN,
    decreases rs.len(),
{
    if rs.len() > 0 {
        assert forall|i: int| 0 <= i < rs.drop_first().len() implies (#[trigger] rs.drop_first()[i])@.len()
            == REVOCATION_LEN by {
            assert(rs.drop_first()[i] == rs[i + 1]);
        }
        lemma_revocations_len(rs.drop_first());
        assert(rs[0]@.len() == REVOCATION_LEN);
        assert(rs.len() * REVOCATION_LEN == (rs.len() - 1) * REVOCATION_LEN + REVOCATION_LEN) by (nonlinear_arith);
    }
}

proof fn lemma_walk_encoded(s: TgStateFile, k: nat)
    requires
        tg_state_wf(s),
        k <= s.members@.len(),
    ensures
        members_walk(tg_bytes(s), MEMBERS_OFFSET + 2, k) == Ok::<int, LoadError>(
            MEMBERS_OFFSET + 2 + members_bytes(s.members@.take(k as int)).len(),
        ),
    decreases k,
{
    let b = tg_bytes(s);
    let ms = s.members@;
    let head = tg_magic() + seq![TG_VERSION, s.min_crypto_level] + be32(s.sequence) + s.self_cert@
        + be16(ms.len());
    assert(head.len() == MEMBERS_OFFSET + 2);
    assert(b == head + members_bytes(ms) + be16(s.revocations@.len()) + revocations_bytes(s.revocations@));
    if k == 0 {
        assert(ms.take(0) =~= Seq::<TgMember>::empty());
    } else {
        let j = (k - 1) as int;
        lemma_walk_encoded(s, (k - 1) as nat);
        let o = MEMBERS_OFFSET + 2 + members_bytes(ms.take(j)).len();
        let m = ms[j];
        assert(ms.take(j + 1) =~= ms.take(j).push(m));
        lemma_members_bytes_push(ms.take(j), m);
        lemma_members_prefix(ms, j + 1);
        let mb = members_bytes(ms.take(j + 1));
        assert(mb == members_bytes(ms.take(j)) + member_bytes(m));
        let nl = utf8(m.name@).len();
        assert(nl <= 0xFFFF);
        assert(m.cert@.len() == DEVICE_CERT_LEN);
        assert forall|t: int| 0 <= t < member_bytes(m).len() implies b[o + t] == member_bytes(m)[t] by {
            assert(b[o + t] == members_bytes(ms)[members_bytes(ms.take(j)).len() + t]);
            assert(members_bytes(ms)[members_bytes(ms.take(j)).len() + t] == mb[members_bytes(ms.take(j)).len() + t]);
        }
        assert(member_bytes(m)[0] == be16(nl)[0] && member_bytes(m)[1] == be16(nl)[1]);
        assert(b[o] == member_bytes(m)[0] && b[o + 1] == member_bytes(m)[1]);
        lemma_be16_value_of(nl);
        assert(b.subrange(o + 2, o + 2 + nl) =~= utf8(m.name@)) by {
            assert forall|t: int| 0 <= t < nl implies b.subrange(o + 2, o + 2 + nl)[t] == utf8(m.name@)[t] by {
                assert(b[o + 2 + t] == member_bytes(m)[2 + t]);
            }
        }
        encode_utf8_valid_utf8(m.name@);
        assert(o + 2 + nl + DEVICE_CERT_LEN <= b.len());
    }
}

/// A state that fits the format parses back without error.
pub proof fn law_encoded_state_parses(s: TgStateFile)
    requires
        tg_state_wf(s),
    ensures
        tg_parse_error(tg_bytes(s)) is None,
{
    let b = tg_bytes(s);
    let ms = s.members@;
    let rs = s.revocations@;
    let head = tg_magic() + seq![TG_VERSION, s.min_crypto_level] + be32(s.sequence) + s.self_cert@
        + be16(ms.len());
    assert(b == head + members_bytes(ms) + be16(rs.len()) + revocations_bytes(rs));
    assert(b.take(4) =~= tg_magic());
    assert(b[157] == be16(ms.len())[0] && b[158] == be16(ms.len())[1]);
    lemma_be16_value_of(ms.len());
    lemma_walk_encoded(s, ms.len());
    assert(ms.take(ms.len() as int) =~= ms);
    let off = MEMBERS_OFFSET + 2 + members_bytes(ms).len();
    assert(b[off] == be16(rs.len())[0] && b[off + 1] == be16(rs.len())[1]);
    lemma_be16_value_of(rs.len());
    lemma_revocations_len(rs);
}

proof fn lemma_members_determined(c: Seq<u8>, a: Seq<TgMember>, b: Seq<TgMember>)
    requires
        a.len() == b.len(),
        members_bytes(a).is_prefix_of(c),
        members_bytes(b).is_prefix_of(c),
        forall|i: int| 0 <= i < a.len() ==> (#[trigger] a[i]).cert@.len() == DEVICE_CERT_LEN && utf8(a[i].name@).len() <= 0xFFFF,
        forall|i: int| 0 <= i < b.len() ==> (#[trigger] b[i]).cert@.len() == DEVICE_CERT_LEN && utf8(b[i].name@).len() <= 0xFFFF,
    ensures
        forall|i: int| 0 <= i < a.len() ==> (#[trigger] a[i]).name@ == b[i].name@ && a[i].cert@ == b[i].cert@,
    decreases a.len(),
{
    if a.len() > 0 {
        let ma = a[0];
        let mb = b[0];
        let la = utf8(ma.name@).len();
        let lb = utf8(mb.name@).len();
        assert(member_bytes(ma).is_prefix_of(c)) by {
            assert forall|t: int| 0 <= t < member_bytes(ma).len() implies member_bytes(ma)[t] == c[t] by {
                assert(members_bytes(a)[t] == member_bytes(ma)[t]);
            }
        }
        assert(member_bytes(mb).is_prefix_of(c)) by {
            assert forall|t: int| 0 <= t < member_bytes(mb).len() implies member_bytes(mb)[t] == c[t] by {
                assert(members_bytes(b)[t] == member_bytes(mb)[t]);
            }
        }
        assert(member_bytes(ma)[0] == be16(la)[0] && member_bytes(ma)[1] == be16(la)[1]);
        assert(member_bytes(mb)[0] == be16(lb)[0] && member_bytes(mb)[1] == be16(lb)[1]);
        assert(c[0] == member_bytes(ma)[0] && c[1] == member_bytes(ma)[1]);
        assert(c[0] == member_bytes(mb)[0] && c[1] == member_bytes(mb)[1]);
        lemma_be16_value_of(la);
        lemma_be16_value_of(lb);
        assert(la == lb);
        assert(utf8(ma.name@) =~= c.subrange(2, 2 + la as int)) by {
            assert forall|t: int| 0 <= t < la implies utf8(ma.name@)[t] == c.subrange(2, 2 + la as int)[t] by {
                assert(member_bytes(ma)[2 + t] == c[2 + t]);
            }
        }
        assert(utf8(mb.name@) =~= c.subrange(2, 2 + la as int)) by {
            assert forall|t: int| 0 <= t < la implies utf8(mb.name@)[t] == c.subrange(2, 2 + la as int)[t] by {
                assert(member_bytes(mb)[2 + t] == c[2 + t]);
            }
        }
        encode_utf8_decode_utf8(ma.name@);
        encode_utf8_decode_utf8(mb.name@);
        assert(ma.name@ == mb.name@);
        assert(ma.cert@ =~= mb.cert@) by {
            assert forall|t: int| 0 <= t < DEVICE_CERT_LEN implies ma.cert@[t] == mb.cert@[t] by {
                assert(member_bytes(ma)[2 + la + t] == c[2 + la + t]);
                assert(member_bytes(mb)[2 + la + t] == c[2 + la + t]);
            }
        }
        let w = member_bytes(ma).len() as int;
        assert(member_bytes(mb).len() == w);
        let c2 = c.skip(w);
        assert(members_bytes(a.drop_first()).is_prefix_of(c2)) by {
            assert forall|t: int| 0 <= t < members_bytes(a.drop_first()).len() implies members_bytes(a.drop_first())[t] == c2[t] by {
                assert(members_bytes(a)[w + t] == members_bytes(a.drop_first())[t]);
            }
        }
        assert(members_bytes(b.drop_first()).is_prefix_of(c2)) by {
            assert forall|t: int| 0 <= t < members_bytes(b.drop_first()).len() implies members_bytes(b.drop_first())[t] == c2[t] by {
                assert(members_bytes(b)[w + t] == members_bytes(b.drop_first())[t]);
            }
        }
        assert forall|i: int| 0 <= i < a.drop_first().len() implies (#[trigger] a.drop_first()[i]).cert@.len() == DEVICE_CERT_LEN && utf8(a.drop_first()[i].name@).len() <= 0xFFFF by {
            assert(a.drop_first()[i] == a[i + 1]);
        }
        assert forall|i: int| 0 <= i < b.drop_first().len() implies (#[trigger] b.drop_first()[i]).cert@.len() == DEVICE_CERT_LEN && utf8(b.drop_first()[i].name@).len() <= 0xFFFF by {
            assert(b.drop_first()[i] == b[i + 1]);
        }
        lemma_members_determined(c2, a.drop_first(), b.drop_first());
        assert forall|i: int| 0 <= i < a.len() implies (#[trigger] a[i]).name@ == b[i].name@ && a[i].cert@ == b[i].cert@ by {
            if i > 0 {
                assert(a.drop_first()[i - 1] == a[i]);
                assert(b.drop_first()[i - 1] == b[i]);
            }
        }
    }
}

proof fn lemma_revocations_determined(c: Seq<u8>, a: Seq<Vec<u8>>, b: Seq<Vec<u8>>)
    requires
        a.len() == b.len(),
        revocations_bytes(a).is_prefix_of(c),
        revocations_bytes(b).is_prefix_of(c),
        forall|i: int| 0 <= i < a.len() ==> (#[trigger] a[i])@.len() == REVOCATION_LEN,
        forall|i: int| 0 <= i < b.len() ==> (#[trigger] b[i])@.len() == REVOCATION_LEN,
    ensures
        forall|i: int| 0 <= i < a.len() ==> (#[trigger] a[i])@ == b[i]@,
    decreases a.len(),
{
    if a.len() > 0 {
        assert(a[0]@ =~= b[0]@) by {
            assert forall|t: int| 0 <= t < REVOCATION_LEN implies a[0]@[t] == b[0]@[t] by {
                assert(revocations_bytes(a)[t] == a[0]@[t]);
                assert(revocations_bytes(b)[t] == b[0]@[t]);
            }
        }
        let c2 = c.skip(REVOCATION_LEN as int);
        assert(revocations_bytes(a.drop_first()).is_prefix_of(c2)) by {
            assert forall|t: int| 0 <= t < revocations_bytes(a.drop_first()).len() implies revocations_bytes(a.drop_first())[t] == c2[t] by {
                assert(revocations_bytes(a)[REVOCATION_LEN + t] == revocations_bytes(a.drop_first())[t]);
            }
        }
        assert(revocations_bytes(b.drop_first()).is_prefix_of(c2)) by {
            assert forall|t: int| 0 <= t < revocations_bytes(b.drop_first()).len() implies revocations_bytes(b.drop_first())[t] == c2[t] by {
                assert(revocations_bytes(b)[REVOCATION_LEN + t] == revocations_bytes(b.drop_first())[t]);
            }
        }
        assert forall|i: int| 0 <= i < a.drop_first().len() implies (#[trigger] a.drop_first()[i])@.len() == REVOCATION_LEN by {
            assert(a.drop_first()[i] == a[i + 1]);
        }
        assert forall|i: int| 0 <= i < b.drop_first().len() implies (#[trigger] b.drop_first()[i])@.len() == REVOCATION_LEN by {
            assert(b.drop_first()[i] == b[i + 1]);
        }
        lemma_revocations_determined(c2, a.drop_first(), b.drop_first());
        assert forall|i: int| 0 <= i < a.len() implies (#[trigger] a[i])@ == b[i]@ by {
            if i > 0 {
                assert(a.drop_first()[i - 1] == a[i]);
                assert(b.drop_first()[i - 1] == b[i]);
            }
        }
    }
}

/// The file bytes determine the state: two states that fit the format
/// and whose encodings both start the same byte string hold the same
/// content. With [`law_encoded_state_parses`], restoring what was saved
/// gives back the saved state.
pub proof fn law_state_bytes_determine_state(x: TgStateFile, y: TgStateFile, b: Seq<u8>)
    requires
        tg_state_wf(x),
        tg_state_wf(y),
        tg_bytes(x).is_prefix_of(b),
        tg_bytes(y).is_prefix_of(b),
    ensures
        same_state(x, y),
{
    let hx = tg_magic() + seq![TG_VERSION, x.min_crypto_level] + be32(x.sequence) + x.self_cert@
        + be16(x.members@.len());
    let hy = tg_magic() + seq![TG_VERSION, y.min_crypto_level] + be32(y.sequence) + y.self_cert@
        + be16(y.members@.len());
    assert(tg_bytes(x) == hx + members_bytes(x.members@) + be16(x.revocations@.len()) + revocations_bytes(x.revocations@));
    assert(tg_bytes(y) == hy + members_bytes(y.members@) + be16(y.revocations@.len()) + revocations_bytes(y.revocations@));
    assert forall|t: int| 0 <= t < MEMBERS_OFFSET + 2 implies hx[t] == hy[t] by {
        assert(tg_bytes(x)[t] == b[t]);
        assert(tg_bytes(y)[t] == b[t]);
    }
    assert(x.min_crypto_level == hx[5] && y.min_crypto_level == hy[5]);
    lemma_be32_value_of(x.sequence);
    lemma_be32_value_of(y.sequence);
    assert(be32(x.sequence)[0] == hx[6] && be32(x.sequence)[1] == hx[7] && be32(x.sequence)[2] == hx[8] && be32(x.sequence)[3] == hx[9]);
    assert(be32(y.sequence)[0] == hy[6] && be32(y.sequence)[1] == hy[7] && be32(y.sequence)[2] == hy[8] && be32(y.sequence)[3] == hy[9]);
    assert(x.self_cert@ =~= y.self_cert@) by {
        assert forall|t: int| 0 <= t < DEVICE_CERT_LEN implies x.self_cert@[t] == y.self_cert@[t] by {
            assert(hx[10 + t] == x.self_cert@[t]);
            assert(hy[10 + t] == y.self_cert@[t]);
        }
    }
    lemma_be16_value_of(x.members@.len());
    lemma_be16_value_of(y.members@.len());
    assert(hx[157] == be16(x.members@.len())[0] && hx[158] == be16(x.members@.len())[1]);
    assert(hy[157] == be16(y.members@.len())[0] && hy[158] == be16(y.members@.len())[1]);
    assert(x.members@.len() == y.members@.len());
    let c = b.skip(MEMBERS_OFFSET + 2);
    assert(members_bytes(x.members@).is_prefix_of(c)) by {
        assert forall|t: int| 0 <= t < members_bytes(x.members@).len() implies members_bytes(x.members@)[t] == c[t] by {
            assert(tg_bytes(x)[MEMBERS_OFFSET + 2 + t] == members_bytes(x.members@)[t]);
        }
    }
    assert(members_bytes(y.members@).is_prefix_of(c)) by {
        assert forall|t: int| 0 <= t < members_bytes(y.members@).len() implies members_bytes(y.members@)[t] == c[t] by {
            assert(tg_bytes(y)[MEMBERS_OFFSET + 2 + t] == members_bytes(y.members@)[t]);
        }
    }
    lemma_members_determined(c, x.members@, y.members@);
    assert(members_bytes(x.members@) =~= members_bytes(y.members@)) by {
        lemma_members_prefix(x.members@, x.members@.len() as int);
        lemma_members_bytes_equal(x.members@, y.members@);
    }
    let off = MEMBERS_OFFSET + 2 + members_bytes(x.members@).len();
    assert(tg_bytes(x)[off] == b[off] && tg_bytes(y)[off] == b[off]);
    assert(tg_bytes(x)[off + 1] == b[off + 1] && tg_bytes(y)[off + 1] == b[off + 1]);
    assert(tg_bytes(x)[off] == be16(x.revocations@.len())[0] && tg_bytes(x)[off + 1] == be16(x.revocations@.len())[1]);
    assert(tg_bytes(y)[off] == be16(y.revocations@.len())[0] && tg_bytes(y)[off + 1] == be16(y.revocations@.len())[1]);
    lemma_be16_value_of(x.revocations@.len());
    lemma_be16_value_of(y.revocations@.len());
    assert(x.revocations@.len() == y.revocations@.len());
    let c2 = b.skip(off + 2);
    assert(revocations_bytes(x.revocations@).is_prefix_of(c2)) by {
        assert forall|t: int| 0 <= t < revocations_bytes(x.revocations@).len() implies revocations_bytes(x.revocations@)[t] == c2[t] by {
            assert(tg_bytes(x)[off + 2 + t] == revocations_bytes(x.revocations@)[t]);
        }
    }
    assert(revocations_bytes(y.revocations@).is_prefix_of(c2)) by {
        assert forall|t: int| 0 <= t < revocations_bytes(y.revocations@).len() implies revocations_bytes(y.revocations@)[t] == c2[t] by {
            assert(tg_bytes(y)[off + 2 + t] == revocations_bytes(y.revocations@)[t]);
        }
    }
    lemma_revocations_determined(c2, x.revocations@, y.revocations@);
}

proof fn lemma_members_bytes_equal(a: Seq<TgMember>, b: Seq<TgMember>)
    requires
        a.len() == b.len(),
        forall|i: int| 0 <= i < a.len() ==> (#[trigger] a[i]).name@ == b[i].name@ && a[i].cert@ == b[i].cert@,
    ensures
        members_bytes(a) == members_bytes(b),
    decreases a.len(),
{
    if a.len() > 0 {
        assert forall|i: int| 0 <= i < a.drop_first().len() implies (#[trigger] a.drop_first()[i]).name@ == b.drop_first()[i].name@ && a.drop_first()[i].cert@ == b.drop_first()[i].cert@ by {
            assert(a.drop_first()[i] == a[i + 1]);
            assert(b.drop_first()[i] == b[i + 1]);
        }
        lemma_members_bytes_equal(a.drop_first(), b.drop_first());
        assert(member_bytes(a[0]) == member_bytes(b[0]));
    }
}

/// Saving then restoring gives back the saved state: the bytes of a
/// state that fits the format parse without error, and whatever state is
/// read back from them (a state that fits the format and whose encoding
/// starts those bytes, as [`decode_tg_state`] promises) holds the same
/// content.
pub proof fn law_save_then_load_round_trips(saved: TgStateFile, loaded: TgStateFile)
    requires
        tg_state_wf(saved),
        tg_state_wf(loaded),
        tg_bytes(loaded).is_prefix_of(tg_bytes(saved)),
    ensures
        tg_parse_error(tg_bytes(saved)) is None,
        same_state(saved, loaded),
{
    law_encoded_state_parses(saved);
    assert(tg_bytes(saved).is_prefix_of(tg_bytes(saved)));
    law_state_bytes_determine_state(saved, loaded, tg_bytes(saved));
}

} // verus!

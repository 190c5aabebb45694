//! Firmware push over TCP: the request preamble
//! `[0x01][size: u32 LE][sha256: 32 bytes]`, the progress a push reports,
//! and the outcome a device's reply `[status][len: u16 LE][msg]` means.
//! The socket work is left to the host.

use vstd::prelude::*;

use crate::codec::{hex_encode, hex_lower};
use crate::crypto::{sha256, sha256_spec};
use crate::text::{chars_of, is_whitespace, is_ws, lead_count, lemma_lead_count_prefix, seq_eq, slice_vec, trim_start_by};

verus! {

/// Everything one push needs.
#[derive(Debug, Clone)]
pub struct OtaPushParams {
    /// Roster row key of the target.
    pub slot_id: String,
    /// The batch this push belongs to.
    pub batch_id: String,
    /// Device address on the network.
    pub target_ip: String,
    /// OTA receiver port.
    pub port: u16,
    /// Path of the firmware image.
    pub firmware_path: String,
    /// Audit log to append to, if any.
    pub log_path: Option<String>,
}

/// The request command byte.
pub const WIRE_CMD_START: u8 = 0x01;
/// The reply status of a successful push.
pub const WIRE_STATUS_OK: u8 = 0x00;
/// The device's OTA receiver port.
pub const OTA_PORT: u16 = 21043;

/// The four little-endian bytes of `n`.
pub open spec fn le32(n: u32) -> Seq<u8> {
    seq![
        (n % 0x100) as u8,
        ((n / 0x100) % 0x100) as u8,
        ((n / 0x10000) % 0x100) as u8,
        ((n / 0x1000000) % 0x100) as u8,
    ]
}

/// The request preamble for a firmware image: the start command, the
/// image size (truncated to 32 bits) in little-endian, then the 32-byte
/// SHA-256 of the image.
pub open spec fn preamble_spec(fw: Seq<u8>) -> Seq<u8> {
    seq![WIRE_CMD_START] + le32(fw.len() as u32) + sha256_spec(fw)
}

/// Builds the request preamble; also returns the digest it carries.
pub fn ota_preamble(fw: &[u8]) -> (r: (Vec<u8>, [u8; 32]))
    ensures
        r.0@ == preamble_spec(fw@),
        r.1@ == sha256_spec(fw@),
        r.0@.len() == 37,
{
    let digest = sha256(fw);
    let n: u32 = fw.len() as u32;
    let mut p: Vec<u8> = Vec::new();
    p.push(WIRE_CMD_START);
    p.push((n % 0x100) as u8);
    p.push(((n / 0x100) % 0x100) as u8);
    p.push(((n / 0x10000) % 0x100) as u8);
    p.push(((n / 0x1000000) % 0x100) as u8);
    let mut i: usize = 0;
    while i < 32
        invariant
            i <= 32,
            digest@.len() == 32,
            p@ == seq![WIRE_CMD_START] + le32(n) + digest@.take(i as int),
        decreases 32 - i,
    {
        p.push(digest[i]);
        i = i + 1;
        assert(p@ =~= seq![WIRE_CMD_START] + le32(n) + digest@.take(i as int));
    }
    assert(digest@.take(32) =~= digest@);
    (p, digest)
}

/// The lowercase hex of an image's SHA-256, as reported when done.
pub fn artefact_sha_hex(digest: &[u8; 32]) -> (s: String)
    ensures
        s@ == hex_lower(digest@),
{
    hex_encode(digest)
}

/// Sending progress in whole percent: 100 for an empty image.
pub open spec fn percent_spec(sent: nat, total: nat) -> nat {
    if total == 0 {
        100
    } else {
        sent * 100 / total
    }
}

/// The percent of an image sent so far.
pub fn send_percent(sent: u64, total: u64) -> (p: u8)
    requires
        sent <= total,
        sent * 100 <= u64::MAX,
    ensures
        p == percent_spec(sent as nat, total as nat),
        p <= 100,
{
    if total == 0 {
        100
    } else {
        assert((sent as int) * 100 / (total as int) <= 100) by (nonlinear_arith)
            requires
                sent <= total,
                total > 0,
        ;
        ((sent * 100) / total) as u8
    }
}

/// The first white-space-delimited token of a message (empty if none).
pub open spec fn first_token(msg: Seq<char>) -> Seq<char> {
    let t = trim_start_by(msg, |c: char| is_ws(c));
    t.take(lead_count(t, |c: char| !is_ws(c)) as int)
}

/// The error kind a device reply's leading code names; an unknown code
/// is a generic device error.
pub open spec fn device_error_kind(msg: Seq<char>) -> Seq<char> {
    let code = first_token(msg);
    if code == "SHA_MISMATCH"@ {
        "sha-mismatch"@
    } else if code == "TOO_BIG"@ {
        "too-big"@
    } else if code == "BAD_MAGIC"@ {
        "bad-magic"@
    } else if code == "WRITE_FAIL"@ {
        "write-fail"@
    } else if code == "NO_SLOT"@ {
        "no-slot"@
    } else if code == "PREAMBLE"@ {
        "preamble"@
    } else if code == "SHORT"@ {
        "short"@
    } else {
        "device-error"@
    }
}

fn first_token_exec(msg: &str) -> (t: Vec<char>)
    ensures
        t@ == first_token(msg@),
{
    let s = chars_of(msg);
    let mut i: usize = 0;
    while i < s.len() && is_whitespace(s[i])
        invariant
            i <= s@.len(),
            forall|k: int| 0 <= k < i ==> is_ws(s@[k]),
        decreases s@.len() - i,
    {
        i = i + 1;
    }
    proof {
        lemma_lead_count_prefix(s@, |c: char| is_ws(c), i as int);
    }
    let ghost t = s@.skip(i as int);
    let mut j: usize = i;
    while j < s.len() && !is_whitespace(s[j])
        invariant
            i <= j <= s@.len(),
            forall|k: int| i <= k < j ==> !is_ws(s@[k]),
        decreases s@.len() - j,
    {
        j = j + 1;
    }
    proof {
        lemma_lead_count_prefix(t, |c: char| !is_ws(c), (j - i) as int);
    }
    let r = slice_vec(&s, i, j);
    assert(r@ =~= first_token(msg@));
    r
}

/// Maps a device error reply to its error kind by the leading code.
pub fn classify_device_error(msg: &str) -> (kind: &'static str)
    ensures
        kind@ == device_error_kind(msg@),
{
    let code = first_token_exec(msg);
    if seq_eq(&code, &chars_of("SHA_MISMATCH")) {
        "sha-mismatch"
    } else if seq_eq(&code, &chars_of("TOO_BIG")) {
        "too-big"
    } else if seq_eq(&code, &chars_of("BAD_MAGIC")) {
        "bad-magic"
    } else if seq_eq(&code, &chars_of("WRITE_FAIL")) {
        "write-fail"
    } else if seq_eq(&code, &chars_of("NO_SLOT")) {
        "no-slot"
    } else if seq_eq(&code, &chars_of("PREAMBLE")) {
        "preamble"
    } else if seq_eq(&code, &chars_of("SHORT")) {
        "short"
    } else {
        "device-error"
    }
}

/// The text of a byte string decoded as UTF-8 with each invalid
/// sequence replaced by U+FFFD.
pub uninterp spec fn utf8_lossy(bytes: Seq<u8>) -> Seq<char>;

/// `String::from_utf8_lossy(bytes).to_string()`. The replacement rules
/// are not written out; the result is named by `utf8_lossy`.
#[verifier::external_body]
fn from_utf8_lossy(bytes: &[u8]) -> (s: String)
    ensures
        s@ == utf8_lossy(bytes@),
{
    String::from_utf8_lossy(bytes).to_string()
}

/// What a device's reply means for the push.
#[derive(Debug, Clone)]
pub enum AckOutcome {
    /// The device accepted the image and is rebooting into it.
    Accepted,
    /// The device refused it: the error kind and the reply text.
    Refused { error_kind: String, message: String },
}

/// The `u16` a little-endian length field holds.
pub open spec fn le16(b0: u8, b1: u8) -> nat {
    (b0 as nat) + 256 * (b1 as nat)
}

/// The length of the reply message, from the two length bytes.
pub fn ack_len(len_bytes: [u8; 2]) -> (n: usize)
    ensures
        n == le16(len_bytes@[0], len_bytes@[1]),
{
    (len_bytes[0] as usize) + 256 * (len_bytes[1] as usize)
}

/// Decides a reply: status `0` accepts, anything else refuses with the
/// kind named by the message's leading code.
pub fn ack_outcome(status: u8, msg_bytes: &[u8]) -> (o: AckOutcome)
    ensures
        status == WIRE_STATUS_OK ==> o is Accepted,
        status != WIRE_STATUS_OK ==> (o matches AckOutcome::Refused { error_kind, message }
            && message@ == utf8_lossy(msg_bytes@) && error_kind@ == device_error_kind(
            utf8_lossy(msg_bytes@),
        )),
{
    if status == WIRE_STATUS_OK {
        AckOutcome::Accepted
    } else {
        let message = from_utf8_lossy(msg_bytes);
        let kind = classify_device_error(message.as_str());
        AckOutcome::Refused { error_kind: kind.to_owned(), message }
    }
}

/// Command: start a push.
pub const CMD_START: u8 = 0x01;
/// Command: forget the running push.
pub const CMD_CANCEL: u8 = 0x02;
/// Error: a push is already running.
pub const ERR_BUSY: u8 = 0x02;
/// Error: no push parameters were left for the start command.
pub const ERR_NO_PARAMS: u8 = 0x03;
/// Error: unknown command byte.
pub const ERR_UNKNOWN_COMMAND: u8 = 0xFE;
/// The size of the pieces the image is written in.
pub const SEND_CHUNK: usize = 32768;

/// What a command to the pusher asks for.
#[derive(Debug, Clone)]
pub enum PushStep {
    /// Take the parameters and run the push.
    Start,
    /// Forget the running push.
    Cancel,
    /// Refuse with this code and message.
    Refuse { code: u8, message: String },
}

/// Decides a command: start (refused while one runs, or without
/// parameters), cancel, or refuse an unknown byte.
pub fn push_command_step(command: u8, running: bool, has_params: bool) -> (s: PushStep)
    ensures
        command == CMD_START && running ==> (s matches PushStep::Refuse { code: c, message: m } && c == ERR_BUSY
            && m@ == "ota_push session already running"@),
        command == CMD_START && !running && !has_params ==> (s matches PushStep::Refuse { code: c, message: m } && c
            == ERR_NO_PARAMS && m@
            == "no OtaPushParams in slot \u{2014} Deploy sentant must fill before firing CMD_START"@),
        command == CMD_START && !running && has_params ==> s is Start,
        command == CMD_CANCEL ==> s is Cancel,
        command != CMD_START && command != CMD_CANCEL ==> (s matches PushStep::Refuse { code: c, message: m } && c
            == ERR_UNKNOWN_COMMAND && m@ == "unknown command byte"@),
{
    if command == CMD_START {
        if running {
            PushStep::Refuse { code: ERR_BUSY, message: "ota_push session already running".to_string() }
        } else if !has_params {
            PushStep::Refuse {
                code: ERR_NO_PARAMS,
                message: "no OtaPushParams in slot \u{2014} Deploy sentant must fill before firing CMD_START".to_string(),
            }
        } else {
            PushStep::Start
        }
    } else if command == CMD_CANCEL {
        PushStep::Cancel
    } else {
        PushStep::Refuse { code: ERR_UNKNOWN_COMMAND, message: "unknown command byte".to_string() }
    }
}

/// After a piece of `chunk` bytes is written (with `sent` bytes before
/// it, of `total`, and `last` the percent last reported): the new sent
/// count, and the percent to report when it changed.
pub fn after_chunk(sent: u64, chunk: u64, total: u64, last: u8) -> (r: (u64, Option<u8>))
    requires
        sent + chunk <= total,
        (sent + chunk) * 100 <= u64::MAX,
    ensures
        r.0 == sent + chunk,
        ({
            let p = percent_spec((sent + chunk) as nat, total as nat);
            if p == last {
                r.1 is None
            } else {
                r.1 == Some(p as u8)
            }
        }),
{
    let now = sent + chunk;
    let pct = send_percent(now, total);
    if pct != last {
        (now, Some(pct))
    } else {
        (now, None)
    }
}

} // verus!

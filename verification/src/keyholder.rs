//! The key holder: custodian of the apiary's trust-group signing key.
//! It derives the public key from the 32-byte seed kept off-tree, checks
//! it against the public key kept in the apiary, and answers the
//! fingerprint command with the hex SHA-256 of that public key.
//!
//! Reading the key files is the caller's work; the decisions here take
//! what was read.

use vstd::prelude::*;

use crate::codec::{hex_encode, hex_lower};
use crate::crypto::{ed25519_public, ed25519_public_of_seed, sha256, sha256_spec};
use crate::text::{dec_spec, push_dec, push_str, string_from_chars};

verus! {

/// A certificate-signing request (kept for callers that still build one).
#[derive(Debug, Clone)]
pub struct SignCertRequest {
    pub device_pk: [u8; 32],
    pub valid_secs: u64,
    pub slot_id: String,
}

/// Command byte: report the trust-group key's fingerprint.
pub const CMD_FINGERPRINT: u8 = 0x02;
/// Error code: no apiary is open.
pub const ERR_NO_APIARY: u8 = 0x01;
/// Error code: the key could not be loaded or did not check out.
pub const ERR_KEY_LOAD_FAILED: u8 = 0x02;
/// Error code: the command byte is not one this plugin knows.
pub const ERR_UNKNOWN_COMMAND: u8 = 0xFE;

/// A refusal: the error code and its description.
#[derive(Debug, Clone)]
pub struct KeyError {
    pub code: u8,
    pub message: String,
}

/// The loaded key: its public half and the public key's fingerprint.
#[derive(Debug, Clone)]
pub struct KeyMaterial {
    pub public: [u8; 32],
    pub fingerprint: String,
}

/// The fingerprint of a public key: lowercase hex of its SHA-256.
pub open spec fn fingerprint_spec(public: Seq<u8>) -> Seq<char> {
    hex_lower(sha256_spec(public))
}

/// The description given when the seed file has the wrong length.
pub open spec fn bad_seed_text(n: nat) -> Seq<char> {
    "expected 32-byte Ed25519 seed, got "@ + dec_spec(n)
}

/// The description given when the apiary's public key disagrees with the
/// seed's.
pub open spec fn pub_mismatch_text(priv_path: Seq<char>, pub_path: Seq<char>) -> Seq<char> {
    "tg_pub.bin in-tree disagrees with derived pub key \u{2014} priv_path="@ + priv_path
        + " pub_path="@ + pub_path
}

/// Loads the key from the bytes of the seed file and, where the apiary
/// holds one, the bytes of its public-key file. The paths only name the
/// files in the refusal.
pub fn load_key_material(
    priv_bytes: &[u8],
    in_tree_pub: Option<&[u8]>,
    priv_path: &str,
    pub_path: &str,
) -> (r: Result<KeyMaterial, KeyError>)
    ensures
        priv_bytes@.len() != 32 ==> (r matches Err(e) && e.code == ERR_KEY_LOAD_FAILED && e.message@
            == bad_seed_text(priv_bytes@.len())),
        priv_bytes@.len() == 32 ==> {
            let public = ed25519_public(priv_bytes@);
            match in_tree_pub {
                Some(p) if p@ != public => (r matches Err(e) && e.code == ERR_KEY_LOAD_FAILED
                    && e.message@ == pub_mismatch_text(priv_path@, pub_path@)),
                _ => (r matches Ok(k) && k.public@ == public && k.fingerprint@ == fingerprint_spec(public)),
            }
        },
{
    if priv_bytes.len() != 32 {
        let mut m: Vec<char> = Vec::new();
        push_str(&mut m, "expected 32-byte Ed25519 seed, got ");
        push_dec(&mut m, priv_bytes.len() as u64);
        assert(m@ =~= bad_seed_text(priv_bytes@.len()));
        return Err(KeyError { code: ERR_KEY_LOAD_FAILED, message: string_from_chars(&m) });
    }
    let mut seed = [0u8; 32];
    let mut i: usize = 0;
    while i < 32
        invariant
            priv_bytes@.len() == 32,
            i <= 32,
            forall|k: int| 0 <= k < i ==> seed@[k] == priv_bytes@[k],
        decreases 32 - i,
    {
        seed[i] = priv_bytes[i];
        i = i + 1;
    }
    assert(seed@ =~= priv_bytes@);
    let public = ed25519_public_of_seed(&seed);
    if let Some(p) = in_tree_pub {
        if !bytes_eq(p, &public) {
            let mut m: Vec<char> = Vec::new();
            push_str(&mut m, "tg_pub.bin in-tree disagrees with derived pub key \u{2014} priv_path=");
            push_str(&mut m, priv_path);
            push_str(&mut m, " pub_path=");
            push_str(&mut m, pub_path);
            assert(m@ =~= pub_mismatch_text(priv_path@, pub_path@));
            return Err(KeyError { code: ERR_KEY_LOAD_FAILED, message: string_from_chars(&m) });
        }
    }
    let digest = sha256(&public);
    let fingerprint = hex_encode(&digest);
    Ok(KeyMaterial { public, fingerprint })
}

fn bytes_eq(a: &[u8], b: &[u8; 32]) -> (r: bool)
    ensures
        r == (a@ == b@),
{
    if a.len() != 32 {
        return false;
    }
    let mut i: usize = 0;
    while i < 32
        invariant
            a@.len() == 32,
            i <= 32,
            forall|k: int| 0 <= k < i ==> a@[k] == b@[k],
        decreases 32 - i,
    {
        if a[i] != b[i] {
            return false;
        }
        i = i + 1;
    }
    assert(a@ =~= b@);
    true
}

/// The reply to the fingerprint command: `{"fp":"<fingerprint>"}`.
pub open spec fn fingerprint_reply_spec(fp: Seq<char>) -> Seq<char> {
    "{\"fp\":\""@ + fp + "\"}"@
}

/// What the key holder does with a command.
#[derive(Debug, Clone)]
pub enum KeyholderAction {
    /// Answer with these bytes.
    Reply(Vec<u8>),
    /// Refuse with this error.
    Fail(KeyError),
    /// Read the key files of the open apiary, then hand the bytes to
    /// [`load_key_material`] and ask again.
    LoadKey,
}

/// Decides the answer to `command`, given whether an apiary is open and
/// the key loaded so far.
pub fn keyholder_step(command: u8, apiary_open: bool, cached: Option<&KeyMaterial>) -> (a: KeyholderAction)
    ensures
        command != CMD_FINGERPRINT ==> (a matches KeyholderAction::Fail(e) && e.code == ERR_UNKNOWN_COMMAND
            && e.message@ == "unknown command"@),
        command == CMD_FINGERPRINT ==> match cached {
            Some(k) => (a matches KeyholderAction::Reply(b) && b@ == crate::web::utf8(
                fingerprint_reply_spec(k.fingerprint@),
            )),
            None => if apiary_open {
                a is LoadKey
            } else {
                (a matches KeyholderAction::Fail(e) && e.code == ERR_NO_APIARY && e.message@
                    == "no apiary open"@)
            },
        },
{
    if command != CMD_FINGERPRINT {
        return KeyholderAction::Fail(KeyError { code: ERR_UNKNOWN_COMMAND, message: "unknown command".to_string() });
    }
    match cached {
        Some(k) => {
            let mut m: Vec<char> = Vec::new();
            push_str(&mut m, "{\"fp\":\"");
            push_str(&mut m, k.fingerprint.as_str());
            push_str(&mut m, "\"}");
            assert(m@ =~= fingerprint_reply_spec(k.fingerprint@));
            let s = string_from_chars(&m);
            KeyholderAction::Reply(vstd::slice::slice_to_vec(s.as_str().as_bytes()))
        },
        None => {
            if apiary_open {
                KeyholderAction::LoadKey
            } else {
                KeyholderAction::Fail(KeyError { code: ERR_NO_APIARY, message: "no apiary open".to_string() })
            }
        },
    }
}

} // verus!

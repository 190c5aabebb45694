//! Hex encoding and decoding of byte strings (the `hex` crate).

use vstd::prelude::*;
use vstd::string::StringSliceAdditionalSpecFns;

use crate::fnv::hex_digit_char;

verus! {

/// Lowercase hex of a byte sequence, two characters per byte.
pub open spec fn hex_lower(data: Seq<u8>) -> Seq<char>
    decreases data.len(),
{
    if data.len() == 0 {
        Seq::empty()
    } else {
        hex_lower(data.drop_last()) + seq![
            hex_digit_char((data.last() / 16) as int),
            hex_digit_char((data.last() % 16) as int),
        ]
    }
}

/// An ASCII hex digit byte of either case.
pub open spec fn is_hex_byte(b: u8) -> bool {
    (48 <= b <= 57) || (97 <= b <= 102) || (65 <= b <= 70)
}

/// Value of one ASCII hex digit byte.
pub open spec fn hex_byte_val(b: u8) -> int {
    if 48 <= b <= 57 {
        b - 48
    } else if 97 <= b <= 102 {
        b - 87
    } else {
        b - 55
    }
}

/// Every byte is an ASCII hex digit.
pub open spec fn all_hex_bytes(s: Seq<u8>) -> bool {
    forall|i: int| 0 <= i < s.len() ==> is_hex_byte(#[trigger] s[i])
}

/// `hex::decode`: an even number of hex digit bytes, read in pairs
/// (high nibble first); anything else is refused.
pub open spec fn hex_decode_spec(s: Seq<u8>) -> Option<Seq<u8>> {
    if s.len() % 2 != 0 || !all_hex_bytes(s) {
        None
    } else {
        Some(
            Seq::new(
                s.len() / 2,
                |i: int| (hex_byte_val(s[2 * i]) * 16 + hex_byte_val(s[2 * i + 1])) as u8,
            ),
        )
    }
}

/// `hex::FromHexError`.
#[verifier::external_type_specification]
#[verifier::external_body]
pub struct ExFromHexError(hex::FromHexError);

/// `hex::encode`: lowercase hex, two characters per byte.
#[verifier::external_body]
pub(crate) fn hex_encode(data: &[u8]) -> (s: String)
    ensures
        s@ == hex_lower(data@),
{
    hex::encode(data)
}

/// `hex::decode` of the UTF-8 bytes of `s`: succeeds exactly on an even
/// number of hex digits of either case, giving one byte per pair.
#[verifier::external_body]
fn hex_decode_raw(s: &str) -> (r: Result<Vec<u8>, hex::FromHexError>)
    ensures
        match r {
            Ok(v) => hex_decode_spec(s.spec_bytes()) == Some(v@),
            Err(_) => hex_decode_spec(s.spec_bytes()) is None,
        },
{
    hex::decode(s)
}

/// Decodes a hex string into bytes; `None` if it is not hex.
pub fn hex_decode(s: &str) -> (r: Option<Vec<u8>>)
    ensures
        match r {
            Some(v) => hex_decode_spec(s.spec_bytes()) == Some(v@),
            None => hex_decode_spec(s.spec_bytes()) is None,
        },
{
    match hex_decode_raw(s) {
        Ok(v) => Some(v),
        Err(_) => None,
    }
}

/// Decodes exactly 32 bytes of hex (a 64-digit string).
pub fn decode_hex_32(s: &str) -> (r: Option<[u8; 32]>)
    ensures
        match r {
            Some(a) => hex_decode_spec(s.spec_bytes()) == Some(a@),
            None => !(hex_decode_spec(s.spec_bytes()) matches Some(v) && v.len() == 32),
        },
{
    let v = hex_decode(s)?;
    if v.len() != 32 {
        return None;
    }
    let mut a = [0u8; 32];
    let mut i: usize = 0;
    while i < 32
        invariant
            v@.len() == 32,
            i <= 32,
            forall|k: int| 0 <= k < i ==> a@[k] == v@[k],
        decreases 32 - i,
    {
        a[i] = v[i];
        i = i + 1;
    }
    assert(a@ =~= v@);
    Some(a)
}

/// Decodes exactly 64 bytes of hex (a 128-digit string).
pub fn decode_hex_64(s: &str) -> (r: Option<[u8; 64]>)
    ensures
        match r {
            Some(a) => hex_decode_spec(s.spec_bytes()) == Some(a@),
            None => !(hex_decode_spec(s.spec_bytes()) matches Some(v) && v.len() == 64),
        },
{
    let v = hex_decode(s)?;
    if v.len() != 64 {
        return None;
    }
    let mut a = [0u8; 64];
    let mut i: usize = 0;
    while i < 64
        invariant
            v@.len() == 64,
            i <= 64,
            forall|k: int| 0 <= k < i ==> a@[k] == v@[k],
        decreases 64 - i,
    {
        a[i] = v[i];
        i = i + 1;
    }
    assert(a@ =~= v@);
    Some(a)
}

} // verus!

//! FNV-1a-32 hashing (R2-FNV): the hash that names events and classes.

use vstd::prelude::*;
use vstd::string::StringSliceAdditionalSpecFns;

use crate::text::{
    chars_of, is_ws, lemma_trim_fixed, string_from_chars, strip_prefix_all, trim, trim_spec, trim_start_matches,
};

verus! {

/// FNV-1a-32 offset basis.
pub const FNV_OFFSET_BASIS: u32 = 0x811c9dc5;

/// FNV-1a-32 prime.
pub const FNV_PRIME: u32 = 0x01000193;

/// One FNV-1a round: xor the byte in, then multiply by the prime modulo 2^32.
pub open spec fn fnv_step(h: u32, b: u8) -> u32 {
    ((((h ^ (b as u32)) as int) * (FNV_PRIME as int)) % 0x1_0000_0000) as u32
}

/// FNV-1a-32 of a byte sequence, folded from the left.
pub open spec fn fnv_spec(s: Seq<u8>) -> u32
    decreases s.len(),
{
    if s.len() == 0 {
        FNV_OFFSET_BASIS
    } else {
        fnv_step(fnv_spec(s.drop_last()), s.last())
    }
}

/// FNV-1a-32 of raw bytes.
pub fn fnv1a_32_bytes(data: &[u8]) -> (h: u32)
    ensures
        h == fnv_spec(data@),
{
    let mut h: u32 = FNV_OFFSET_BASIS;
    let mut i: usize = 0;
    while i < data.len()
        invariant
            i <= data@.len(),
            h == fnv_spec(data@.take(i as int)),
        decreases data@.len() - i,
    {
        let b = data[i];
        assert(data@.take(i as int + 1).drop_last() =~= data@.take(i as int));
        h = (h ^ (b as u32)).wrapping_mul(FNV_PRIME);
        i = i + 1;
    }
    assert(data@.take(data@.len() as int) =~= data@);
    h
}

/// FNV-1a-32 of the UTF-8 bytes of a string: the hash that names an
/// event or a class.
pub open spec fn str_hash(s: &str) -> u32 {
    fnv_spec(s.spec_bytes())
}

/// FNV-1a-32 of the UTF-8 bytes of a string.
pub fn fnv1a_32(s: &str) -> (h: u32)
    ensures
        h == str_hash(s),
{
    fnv1a_32_bytes(s.as_bytes())
}


/// Lowercase hex digit character for `d` in `0..16`.
pub open spec fn hex_digit_char(d: int) -> char {
    if d < 10 {
        (48 + d) as char
    } else {
        (87 + d) as char
    }
}

/// The low `k` hex digits of `n`, most significant first, zero-filled.
pub open spec fn hex_fixed(n: nat, k: nat) -> Seq<char>
    decreases k,
{
    if k == 0 {
        Seq::empty()
    } else {
        hex_fixed(n / 16, (k - 1) as nat).push(hex_digit_char((n % 16) as int))
    }
}

/// `format!("0x{:08x}", h)`.
pub open spec fn hex_u32_spec(h: u32) -> Seq<char> {
    seq!['0', 'x'] + hex_fixed(h as nat, 8)
}

/// The hex digit character of `d` in `0..16`.
pub fn hex_digit(d: u32) -> (c: char)
    requires
        d < 16,
    ensures
        c == hex_digit_char(d as int),
{
    let b: u8 = if d < 10 { 48 + d as u8 } else { 87 + d as u8 };
    b as char
}

/// Appends the low `k` hex digits of `n`.
pub(crate) fn push_hex_fixed(out: &mut Vec<char>, n: u32, k: usize)
    ensures
        final(out)@ == old(out)@ + hex_fixed(n as nat, k as nat),
    decreases k,
{
    if k == 0 {
        assert(old(out)@ + hex_fixed(n as nat, 0) =~= old(out)@);
    } else {
        push_hex_fixed(out, n / 16, k - 1);
        out.push(hex_digit(n % 16));
        assert(final(out)@ =~= old(out)@ + hex_fixed(n as nat, k as nat)) by {
            assert(hex_fixed(n as nat, k as nat) == hex_fixed((n / 16) as nat, (k - 1) as nat).push(
                hex_digit_char((n % 16) as int),
            ));
        }
    }
}

/// `0x` followed by the eight lowercase hex digits of `h`.
pub fn hex_u32_08(h: u32) -> (s: String)
    ensures
        s@ == hex_u32_spec(h),
{
    let mut v: Vec<char> = Vec::new();
    v.push('0');
    v.push('x');
    push_hex_fixed(&mut v, h, 8);
    assert(v@ =~= hex_u32_spec(h));
    string_from_chars(&v)
}

/// Class hash of a class string, spelled as in catalogue TOML files:
/// `"0x"` and eight lowercase hex digits.
pub fn class_hash_hex(s: &str) -> (r: String)
    ensures
        r@ == hex_u32_spec(fnv_spec(s.spec_bytes())),
{
    hex_u32_08(fnv1a_32(s))
}

/// ASCII hex digit of either case.
pub open spec fn is_hex_char(c: char) -> bool {
    ('0' <= c && c <= '9') || ('a' <= c && c <= 'f') || ('A' <= c && c <= 'F')
}

/// Value of one hex digit.
pub open spec fn hex_char_val(c: char) -> int {
    if '0' <= c && c <= '9' {
        c as int - 48
    } else if 'a' <= c && c <= 'f' {
        c as int - 87
    } else {
        c as int - 55
    }
}

/// Value of a string of hex digits.
pub open spec fn hex_value(s: Seq<char>) -> int
    decreases s.len(),
{
    if s.len() == 0 {
        0
    } else {
        hex_value(s.drop_last()) * 16 + hex_char_val(s.last())
    }
}

/// Every character is a hex digit.
pub open spec fn all_hex(s: Seq<char>) -> bool {
    forall|i: int| 0 <= i < s.len() ==> is_hex_char(#[trigger] s[i])
}

/// The digits of an unsigned number literal: an optional leading `+` dropped.
pub open spec fn unsigned_digits(t: Seq<char>) -> Seq<char> {
    if t.len() > 0 && t[0] == '+' {
        t.drop_first()
    } else {
        t
    }
}

/// `u32::from_str_radix(t, 16)`: an optional `+`, then at least one hex
/// digit, and a value that fits in 32 bits.
pub open spec fn from_str_radix16(t: Seq<char>) -> Option<u32> {
    let digits = unsigned_digits(t);
    if digits.len() == 0 || !all_hex(digits) || hex_value(digits) >= 0x1_0000_0000 {
        None
    } else {
        Some(hex_value(digits) as u32)
    }
}

/// The expected-hash literal accepted by [`verify_class_hash`]: surrounding
/// white space, then any number of `0x` and then `0X` prefixes, then the
/// hex digits.
pub open spec fn parse_class_hash_spec(raw: Seq<char>) -> Option<u32> {
    from_str_radix16(strip_prefix_all(strip_prefix_all(trim_spec(raw), seq!['0', 'x']), seq!['0', 'X']))
}

proof fn lemma_hex_value_grows(s: Seq<char>, k: int)
    requires
        0 <= k <= s.len(),
        forall|i: int| 0 <= i < s.len() ==> is_hex_char(s[i]),
    ensures
        hex_value(s.take(k)) <= hex_value(s),
        0 <= hex_value(s.take(k)),
    decreases s.len() - k,
{
    if k < s.len() {
        lemma_hex_value_grows(s, k + 1);
        assert(s.take(k + 1).drop_last() =~= s.take(k));
    } else {
        assert(s.take(k) =~= s);
    }
    lemma_hex_value_nonneg(s.take(k));
}

proof fn lemma_hex_value_nonneg(s: Seq<char>)
    requires
        forall|i: int| 0 <= i < s.len() ==> is_hex_char(s[i]),
    ensures
        0 <= hex_value(s),
    decreases s.len(),
{
    if s.len() > 0 {
        lemma_hex_value_nonneg(s.drop_last());
    }
}

/// Parses hex digits (after an optional `+`) into a `u32`.
pub fn from_str_radix16_exec(t: &Vec<char>) -> (r: Option<u32>)
    ensures
        r == from_str_radix16(t@),
{
    let start: usize = if t.len() > 0 && t[0] == '+' { 1 } else { 0 };
    let ghost digits = unsigned_digits(t@);
    assert(digits =~= t@.skip(start as int));
    if start >= t.len() {
        return None;
    }
    let mut v: u64 = 0;
    let mut i: usize = start;
    while i < t.len()
        invariant
            start <= i <= t@.len(),
            digits =~= t@.skip(start as int),
            digits == unsigned_digits(t@),
            digits.len() > 0,
            forall|k: int| 0 <= k < i - start ==> is_hex_char(digits[k]),
            v == hex_value(digits.take(i - start)),
            v < 0x1_0000_0000,
        decreases t@.len() - i,
    {
        let c = t[i];
        if !(('0' <= c && c <= '9') || ('a' <= c && c <= 'f') || ('A' <= c && c <= 'F')) {
            let ghost j = i - start;
            assert(0 <= j < digits.len());
            assert(!is_hex_char(digits[j]));
            assert(from_str_radix16(t@) is None);
            return None;
        }
        let d: u64 = if '0' <= c && c <= '9' {
            (c as u32 - 48) as u64
        } else if 'a' <= c && c <= 'f' {
            (c as u32 - 87) as u64
        } else {
            (c as u32 - 55) as u64
        };
        assert(digits.take(i - start + 1).drop_last() =~= digits.take(i - start));
        assert(d == hex_char_val(digits.take(i - start + 1).last()));
        v = v * 16 + d;
        i = i + 1;
        assert(v == hex_value(digits.take(i - start)));
        if v >= 0x1_0000_0000 {
            proof {
                let n = i - start;
                if all_hex(digits) {
                    lemma_hex_value_grows(digits, n as int);
                }
            }
            assert(from_str_radix16(t@) is None);
            return None;
        }
    }
    assert(digits.take(digits.len() as int) =~= digits);
    Some(v as u32)
}

/// Does the FNV-1a-32 of `s` match the hex literal `expected_hex`?
/// Accepts `"0x624c47bc"` or `"624c47bc"`, either case, with surrounding
/// white space.
pub fn verify_class_hash(s: &str, expected_hex: &str) -> (r: bool)
    ensures
        r == match parse_class_hash_spec(expected_hex@) {
            Some(expected) => fnv_spec(s.spec_bytes()) == expected,
            None => false,
        },
{
    let raw = chars_of(expected_hex);
    let trimmed = trim(&raw);
    let mut p1: Vec<char> = Vec::new();
    p1.push('0');
    p1.push('x');
    let mut p2: Vec<char> = Vec::new();
    p2.push('0');
    p2.push('X');
    assert(p1@ =~= seq!['0', 'x']);
    assert(p2@ =~= seq!['0', 'X']);
    let t1 = trim_start_matches(&trimmed, &p1);
    let t2 = trim_start_matches(&t1, &p2);
    match from_str_radix16_exec(&t2) {
        Some(expected) => fnv1a_32(s) == expected,
        None => false,
    }
}

/// Uppercase hex digit character for `d` in `0..16`.
pub open spec fn hex_digit_upper(d: int) -> char {
    if d < 10 {
        (48 + d) as char
    } else {
        (55 + d) as char
    }
}

/// The low `k` uppercase hex digits of `n`, most significant first.
pub open spec fn hex_fixed_upper(n: nat, k: nat) -> Seq<char>
    decreases k,
{
    if k == 0 {
        Seq::empty()
    } else {
        hex_fixed_upper(n / 16, (k - 1) as nat).push(hex_digit_upper((n % 16) as int))
    }
}

/// `format!("0x{:08X}", h)`.
pub open spec fn hex_u32_upper_spec(h: u32) -> Seq<char> {
    seq!['0', 'x'] + hex_fixed_upper(h as nat, 8)
}

pub(crate) fn push_hex_fixed_upper(out: &mut Vec<char>, n: u32, k: usize)
    ensures
        final(out)@ == old(out)@ + hex_fixed_upper(n as nat, k as nat),
    decreases k,
{
    if k == 0 {
        assert(old(out)@ + hex_fixed_upper(n as nat, 0) =~= old(out)@);
    } else {
        push_hex_fixed_upper(out, n / 16, k - 1);
        let d = n % 16;
        let b: u8 = if d < 10 { 48 + d as u8 } else { 55 + d as u8 };
        out.push(b as char);
        assert(final(out)@ =~= old(out)@ + hex_fixed_upper(n as nat, k as nat)) by {
            assert(hex_fixed_upper(n as nat, k as nat) == hex_fixed_upper((n / 16) as nat, (k - 1) as nat).push(
                hex_digit_upper((n % 16) as int),
            ));
        }
    }
}

/// `0x` followed by the eight uppercase hex digits of `h`.
pub fn hex_u32_08_upper(h: u32) -> (s: String)
    ensures
        s@ == hex_u32_upper_spec(h),
{
    let mut v: Vec<char> = Vec::new();
    v.push('0');
    v.push('x');
    push_hex_fixed_upper(&mut v, h, 8);
    assert(v@ =~= hex_u32_upper_spec(h));
    string_from_chars(&v)
}

/// The lowercase hex digits of `n` with no leading zeros (`0` for zero),
/// as `{:x}` writes them.
pub open spec fn hex_min(n: nat) -> Seq<char>
    decreases n,
{
    if n < 16 {
        seq![hex_digit_char(n as int)]
    } else {
        hex_min(n / 16).push(hex_digit_char((n % 16) as int))
    }
}

/// Appends the lowercase hex digits of `n`, without leading zeros.
pub fn push_hex_min(out: &mut Vec<char>, n: u64)
    ensures
        final(out)@ == old(out)@ + hex_min(n as nat),
    decreases n,
{
    if n < 16 {
        out.push(hex_digit(n as u32));
        assert(final(out)@ =~= old(out)@ + hex_min(n as nat));
    } else {
        push_hex_min(out, n / 16);
        out.push(hex_digit((n % 16) as u32));
        assert(final(out)@ =~= old(out)@ + hex_min(n as nat));
    }
}

/// Sixteen to the power `k`.
pub open spec fn pow16(k: nat) -> nat
    decreases k,
{
    if k == 0 {
        1
    } else {
        16 * pow16((k - 1) as nat)
    }
}

proof fn lemma_pow16_pos(k: nat)
    ensures
        pow16(k) > 0,
    decreases k,
{
    if k > 0 {
        lemma_pow16_pos((k - 1) as nat);
    }
}

proof fn lemma_mod_step(n: nat, p: nat)
    requires
        p > 0,
    ensures
        ((n / 16) % p) * 16 + n % 16 == n % (16 * p),
{
    let a = n / 16;
    let r = n % 16;
    let q = a / p;
    let m = a % p;
    assert(n == 16 * a + r && 0 <= r < 16) by (nonlinear_arith)
        requires
            a == n / 16,
            r == n % 16,
    ;
    assert(a == q * p + m && 0 <= m < p) by (nonlinear_arith)
        requires
            p > 0,
            q == a / p,
            m == a % p,
    ;
    assert(n == q * (16 * p) + (16 * m + r) && 0 <= 16 * m + r < 16 * p) by (nonlinear_arith)
        requires
            n == 16 * a + r,
            a == q * p + m,
            0 <= r < 16,
            0 <= m < p,
    ;
    assert(n % (16 * p) == 16 * m + r) by (nonlinear_arith)
        requires
            n == q * (16 * p) + (16 * m + r),
            0 <= 16 * m + r < 16 * p,
    ;
}

/// The fixed-width digits are hex digits, and read back as the number
/// modulo the width.
proof fn lemma_hex_fixed_value(n: nat, k: nat)
    ensures
        hex_fixed(n, k).len() == k,
        all_hex(hex_fixed(n, k)),
        hex_value(hex_fixed(n, k)) == n % pow16(k),
    decreases k,
{
    if k == 0 {
        assert(n % 1 == 0) by (nonlinear_arith);
    } else {
        lemma_hex_fixed_value(n / 16, (k - 1) as nat);
        lemma_pow16_pos((k - 1) as nat);
        lemma_mod_step(n, pow16((k - 1) as nat));
        let d = n % 16;
        assert(hex_char_val(hex_digit_char(d as int)) == d);
        assert(is_hex_char(hex_digit_char(d as int)));
        let f = hex_fixed(n, k);
        assert(f.drop_last() == hex_fixed(n / 16, (k - 1) as nat));
        assert forall|i: int| 0 <= i < f.len() implies is_hex_char(#[trigger] f[i]) by {
            if i < f.len() - 1 {
                assert(f[i] == f.drop_last()[i]);
            }
        }
    }
}

/// The hex the library writes for a hash is accepted back by
/// [`verify_class_hash`]: `class_hash_hex(s)` always verifies against `s`.
pub proof fn law_class_hash_round_trip(h: u32)
    ensures
        parse_class_hash_spec(hex_u32_spec(h)) == Some(h),
{
    let digits = hex_fixed(h as nat, 8);
    lemma_hex_fixed_value(h as nat, 8);
    let full = hex_u32_spec(h);
    assert(full.len() == 10);
    assert(full[0] == '0');
    assert(full.last() == digits[7]);
    assert(is_hex_char(digits[7]));
    lemma_trim_fixed(full);
    let px = seq!['0', 'x'];
    let pX = seq!['0', 'X'];
    assert(px.is_prefix_of(full));
    assert(full.skip(2) =~= digits);
    assert(!px.is_prefix_of(digits)) by {
        assert(is_hex_char(digits[1]));
    }
    assert(strip_prefix_all(digits, px) == digits);
    assert(strip_prefix_all(full, px) == digits);
    assert(!pX.is_prefix_of(digits)) by {
        assert(is_hex_char(digits[1]));
    }
    assert(strip_prefix_all(digits, pX) == digits);
    assert(is_hex_char(digits[0]));
    assert(unsigned_digits(digits) == digits);
    assert(pow16(8) == 0x1_0000_0000) by {
        reveal_with_fuel(pow16, 9);
    }
    assert((h as nat) % 0x1_0000_0000 == h as nat);
}

/// FNV-1a-32 of the first `n` bytes of `s`, folded forward.
pub open spec fn fnv_prefix(s: Seq<u8>, n: int) -> u32
    decreases n,
{
    if n <= 0 {
        FNV_OFFSET_BASIS
    } else {
        fnv_step(fnv_prefix(s, n - 1), s[n - 1])
    }
}

proof fn lemma_fnv_prefix_take(s: Seq<u8>, n: int)
    requires
        0 <= n <= s.len(),
    ensures
        fnv_prefix(s.take(n), n) == fnv_prefix(s, n),
    decreases n,
{
    if n > 0 {
        lemma_fnv_prefix_take(s, n - 1);
        assert(s.take(n).take(n - 1) =~= s.take(n - 1));
        lemma_fnv_prefix_take(s.take(n), n - 1);
    }
}

/// The backward and forward folds agree.
pub proof fn lemma_fnv_prefix(s: Seq<u8>)
    ensures
        fnv_spec(s) == fnv_prefix(s, s.len() as int),
    decreases s.len(),
{
    if s.len() > 0 {
        lemma_fnv_prefix(s.drop_last());
        assert(s.drop_last() =~= s.take(s.len() - 1));
        lemma_fnv_prefix_take(s, s.len() - 1);
    }
}

/// The bytes of an ASCII text: one per character.
pub open spec fn ascii_bytes(s: Seq<char>) -> Seq<u8> {
    Seq::new(s.len(), |i: int| s[i] as u8)
}

/// The hash of an ASCII text's UTF-8 encoding, folded forward over its
/// characters.
pub proof fn lemma_ascii_hash(s: Seq<char>)
    requires
        vstd::utf8::is_ascii_chars(s),
    ensures
        fnv_spec(vstd::utf8::encode_utf8(s)) == fnv_prefix(ascii_bytes(s), s.len() as int),
{
    vstd::utf8::is_ascii_chars_encode_utf8(s);
    assert(vstd::utf8::encode_utf8(s) =~= ascii_bytes(s));
    lemma_fnv_prefix(ascii_bytes(s));
}

} // verus!

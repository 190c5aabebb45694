//! Attached serial ports: which tty names are USB serial ports, how a
//! port's USB identity is matched against the board catalogue, and which
//! ports appeared or vanished between two scans.

use vstd::prelude::*;

use std::collections::HashMap;

use crate::fnv::{from_str_radix16, from_str_radix16_exec};
use crate::text::{chars_of, starts_with, str_eq, strip_prefix_all, trim, trim_spec, trim_start_matches};

verus! {

broadcast use vstd::std_specs::hash::group_hash_axioms;

/// How a port's carrier board was identified.
#[derive(Debug, Clone, Copy, PartialEq, Eq, Structural)]
pub enum GuessConfidence {
    /// Exactly one catalogue board has the port's VID/PID.
    VidPid,
    /// Several boards share the VID/PID.
    Ambiguous,
    /// No board has it.
    Unknown,
}

/// The facts a scan reads for one serial port.
#[derive(Debug, Clone, PartialEq, Eq)]
pub struct UsbPortRaw {
    pub port: String,
    pub vid: u16,
    pub pid: u16,
    pub serial: Option<String>,
    pub sysfs_path: String,
}

/// One observed serial port, its USB identity and carrier guess.
#[derive(Debug, Clone, PartialEq, Eq)]
pub struct UsbPort {
    /// Device node, e.g. `/dev/ttyACM0`.
    pub port: String,
    pub vid: u16,
    pub pid: u16,
    /// USB serial string (the efuse MAC on ESP carriers), when readable.
    pub serial: Option<String>,
    pub sysfs_path: String,
    /// The catalogue board, when exactly one matches.
    pub carrier_guess: Option<String>,
    pub guess_confidence: GuessConfidence,
    /// The matching boards, filled only when the match is ambiguous.
    pub candidates: Vec<String>,
}

/// Whether a tty name is a USB serial port (`ttyACM*` or `ttyUSB*`).
pub open spec fn serial_tty_name(name: Seq<char>) -> bool {
    "ttyACM"@.is_prefix_of(name) || "ttyUSB"@.is_prefix_of(name)
}

/// Whether a tty name is a USB serial port.
pub fn is_serial_tty(name: &str) -> (r: bool)
    ensures
        r == serial_tty_name(name@),
{
    let n = chars_of(name);
    starts_with(&n, &chars_of("ttyACM")) || starts_with(&n, &chars_of("ttyUSB"))
}

/// `u16::from_str_radix(t, 16)`.
pub open spec fn from_str_radix16_u16(t: Seq<char>) -> Option<u16> {
    match from_str_radix16(t) {
        Some(v) => if v <= 0xFFFF {
            Some(v as u16)
        } else {
            None
        },
        None => None,
    }
}

/// The value of a sysfs `idVendor` / `idProduct` file: white space
/// trimmed, leading `0x` removed, then hex.
pub open spec fn sysfs_hex(raw: Seq<char>) -> Option<u16> {
    from_str_radix16_u16(strip_prefix_all(trim_spec(raw), seq!['0', 'x']))
}

/// Parses the text of a sysfs hex id file.
pub fn parse_sysfs_hex(raw: &str) -> (r: Option<u16>)
    ensures
        r == sysfs_hex(raw@),
{
    let t = trim(&chars_of(raw));
    let mut p: Vec<char> = Vec::new();
    p.push('0');
    p.push('x');
    assert(p@ =~= seq!['0', 'x']);
    let digits = trim_start_matches(&t, &p);
    match from_str_radix16_exec(&digits) {
        Some(v) => if v <= 0xFFFF {
            Some(v as u16)
        } else {
            None
        },
        None => None,
    }
}

/// The key of a VID/PID pair in the catalogue lookup table.
pub open spec fn vid_pid_key(vid: u16, pid: u16) -> u32 {
    ((vid as int) * 0x10000 + pid as int) as u32
}

/// The key of a VID/PID pair in the catalogue lookup table.
pub fn lookup_key(vid: u16, pid: u16) -> (k: u32)
    ensures
        k == vid_pid_key(vid, pid),
{
    (vid as u32) * 0x10000 + pid as u32
}

/// The board slugs the table lists for a VID/PID pair (none if absent).
pub open spec fn candidates_for(lookup: Map<u32, Vec<String>>, vid: u16, pid: u16) -> Seq<Seq<char>> {
    if lookup.contains_key(vid_pid_key(vid, pid)) {
        lookup[vid_pid_key(vid, pid)]@.map_values(|s: String| s@)
    } else {
        Seq::empty()
    }
}

/// `port` carries `raw`'s facts and the guess made from `cands`.
pub open spec fn classified(raw: UsbPortRaw, cands: Seq<Seq<char>>, port: UsbPort) -> bool {
    &&& port.port == raw.port
    &&& port.vid == raw.vid
    &&& port.pid == raw.pid
    &&& port.serial == raw.serial
    &&& port.sysfs_path == raw.sysfs_path
    &&& if cands.len() == 0 {
        &&& port.carrier_guess is None
        &&& port.guess_confidence == GuessConfidence::Unknown
        &&& port.candidates@.len() == 0
    } else if cands.len() == 1 {
        &&& port.carrier_guess matches Some(g) && g@ == cands[0]
        &&& port.guess_confidence == GuessConfidence::VidPid
        &&& port.candidates@.len() == 0
    } else {
        &&& port.carrier_guess is None
        &&& port.guess_confidence == GuessConfidence::Ambiguous
        &&& port.candidates@.map_values(|s: String| s@) == cands
    }
}

fn clone_strings(v: &Vec<String>) -> (r: Vec<String>)
    ensures
        r@.map_values(|s: String| s@) == v@.map_values(|s: String| s@),
{
    let mut r: Vec<String> = Vec::new();
    let mut i: usize = 0;
    while i < v.len()
        invariant
            i <= v@.len(),
            r@.len() == i,
            forall|j: int| 0 <= j < i ==> (#[trigger] r@[j])@ == v@[j]@,
        decreases v@.len() - i,
    {
        r.push(v[i].clone());
        i = i + 1;
    }
    assert(r@.map_values(|s: String| s@) =~= v@.map_values(|s: String| s@));
    r
}

/// Matches a scanned port against the catalogue table `{VID/PID key →
/// board slugs}`: one board is a guess, several are ambiguous (and listed),
/// none is unknown.
pub fn classify(raw: UsbPortRaw, lookup: &HashMap<u32, Vec<String>>) -> (p: UsbPort)
    ensures
        classified(raw, candidates_for(lookup@, raw.vid, raw.pid), p),
{
    let key = lookup_key(raw.vid, raw.pid);
    let candidates: Vec<String> = match lookup.get(&key) {
        Some(v) => clone_strings(v),
        None => Vec::new(),
    };
    let ghost cands = candidates_for(lookup@, raw.vid, raw.pid);
    assert(candidates@.map_values(|s: String| s@) =~= cands);
    let n = candidates.len();
    if n == 0 {
        UsbPort {
            port: raw.port,
            vid: raw.vid,
            pid: raw.pid,
            serial: raw.serial,
            sysfs_path: raw.sysfs_path,
            carrier_guess: None,
            guess_confidence: GuessConfidence::Unknown,
            candidates: Vec::new(),
        }
    } else if n == 1 {
        let g = candidates[0].clone();
        assert(g@ == candidates@.map_values(|s: String| s@)[0]);
        UsbPort {
            port: raw.port,
            vid: raw.vid,
            pid: raw.pid,
            serial: raw.serial,
            sysfs_path: raw.sysfs_path,
            carrier_guess: Some(g),
            guess_confidence: GuessConfidence::VidPid,
            candidates: Vec::new(),
        }
    } else {
        UsbPort {
            port: raw.port,
            vid: raw.vid,
            pid: raw.pid,
            serial: raw.serial,
            sysfs_path: raw.sysfs_path,
            carrier_guess: None,
            guess_confidence: GuessConfidence::Ambiguous,
            candidates,
        }
    }
}

/// Whether some port of `ports` has the device node `name`.
pub open spec fn has_port(ports: Seq<UsbPort>, name: Seq<char>) -> bool {
    exists|j: int| 0 <= j < ports.len() && (#[trigger] ports[j]).port@ == name
}

fn find_port(ports: &Vec<UsbPort>, name: &str) -> (r: bool)
    ensures
        r == has_port(ports@, name@),
{
    let mut j: usize = 0;
    while j < ports.len()
        invariant
            j <= ports@.len(),
            forall|k: int| 0 <= k < j ==> (#[trigger] ports@[k]).port@ != name@,
        decreases ports@.len() - j,
    {
        if str_eq(ports[j].port.as_str(), name) {
            return true;
        }
        j = j + 1;
    }
    false
}

/// What changed between two scans.
#[derive(Debug, Clone)]
pub struct PortDiff {
    /// Positions in the current scan of the ports that are new.
    pub attached: Vec<usize>,
    /// Device nodes of the previous scan's ports that are gone.
    pub detached: Vec<String>,
}

/// Compares two scans by device node: the ports of `current` absent from
/// `previous` were attached (in `current`'s order), and those of
/// `previous` absent from `current` were detached (in `previous`'s order).
pub fn port_diff(previous: &Vec<UsbPort>, current: &Vec<UsbPort>) -> (d: PortDiff)
    ensures
        d.attached@ == Seq::new(current@.len(), |i: int| i as usize).filter(
            |i: usize| !has_port(previous@, current@[i as int].port@),
        ),
        d.detached@.map_values(|s: String| s@) == previous@.filter(
            |p: UsbPort| !has_port(current@, p.port@),
        ).map_values(|p: UsbPort| p.port@),
{
    let ghost idx = Seq::new(current@.len(), |i: int| i as usize);
    let ghost keep_new = |i: usize| !has_port(previous@, current@[i as int].port@);
    let mut attached: Vec<usize> = Vec::new();
    let mut i: usize = 0;
    while i < current.len()
        invariant
            i <= current@.len(),
            idx == Seq::new(current@.len(), |i: int| i as usize),
            keep_new == (|i: usize| !has_port(previous@, current@[i as int].port@)),
            attached@ == idx.take(i as int).filter(keep_new),
        decreases current@.len() - i,
    {
        let found = find_port(previous, current[i].port.as_str());
        proof {
            assert(idx.take(i as int + 1).drop_last() =~= idx.take(i as int));
            assert(idx.take(i as int + 1).last() == i);
            idx.take(i as int).lemma_filter_push(i, keep_new);
            assert(idx.take(i as int + 1) =~= idx.take(i as int).push(i));
        }
        if !found {
            attached.push(i);
        }
        i = i + 1;
    }
    assert(idx.take(i as int) =~= idx);
    let ghost keep_gone = |p: UsbPort| !has_port(current@, p.port@);
    let mut detached: Vec<String> = Vec::new();
    let mut k: usize = 0;
    while k < previous.len()
        invariant
            k <= previous@.len(),
            keep_gone == (|p: UsbPort| !has_port(current@, p.port@)),
            detached@.len() == previous@.take(k as int).filter(keep_gone).len(),
            forall|j: int|
                0 <= j < detached@.len() ==> (#[trigger] detached@[j])@ == previous@.take(
                    k as int,
                ).filter(keep_gone)[j].port@,
        decreases previous@.len() - k,
    {
        let found = find_port(current, previous[k].port.as_str());
        let ghost t = previous@.take(k as int);
        proof {
            t.lemma_filter_push(previous@[k as int], keep_gone);
            assert(previous@.take(k as int + 1) =~= t.push(previous@[k as int]));
        }
        if !found {
            detached.push(previous[k].port.clone());
        }
        k = k + 1;
    }
    assert(previous@.take(k as int) =~= previous@);
    assert(detached@.map_values(|s: String| s@) =~= previous@.filter(keep_gone).map_values(
        |p: UsbPort| p.port@,
    ));
    PortDiff { attached, detached }
}

} // verus!

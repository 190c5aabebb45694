//! USB first-install through `esptool`: the command line for a
//! multi-region `write_flash`, the phase each line of its output reports,
//! whether a session may start, and the event its exit produces.
//! Spawning the tool and reading its pipes is left to the host.

use vstd::prelude::*;

use crate::text::{
    ascii_lower_seq, chars_of, contains, contains_seq, dec_spec, push_string,
    string_from_chars, string_views, to_ascii_lowercase, u64_to_string,
};

verus! {

/// One region of the flash: an offset and the image written there.
#[derive(Debug, Clone)]
pub struct FlashRegion {
    /// Hex offset like `0x0`, `0x8000`, `0x20000`.
    pub offset: String,
    /// Path of the `.bin` file.
    pub path: String,
}

/// Everything the flasher needs for one USB first-install.
#[derive(Debug, Clone)]
pub struct FlashParams {
    /// Stable per-target id.
    pub slot_id: String,
    /// Serial port, e.g. `/dev/ttyACM0`.
    pub port: String,
    /// `esptool --chip` value.
    pub chip_arg: String,
    /// Baud rate.
    pub baud: u32,
    /// The regions to write, in order.
    pub regions: Vec<FlashRegion>,
    /// SHA-256 of the primary firmware image, when known.
    pub firmware_sha256: Option<String>,
}

/// The fixed head of the `esptool` command line.
pub open spec fn esptool_head(p: FlashParams) -> Seq<Seq<char>> {
    seq![
        "--chip"@,
        p.chip_arg@,
        "--port"@,
        p.port@,
        "--baud"@,
        dec_spec(p.baud as nat),
        "--before"@,
        "default_reset"@,
        "--after"@,
        "hard_reset"@,
        "write_flash"@,
    ]
}

/// Each region as its offset followed by its path.
pub open spec fn region_args(rs: Seq<FlashRegion>) -> Seq<Seq<char>>
    decreases rs.len(),
{
    if rs.len() == 0 {
        Seq::empty()
    } else {
        region_args(rs.drop_last()) + seq![rs.last().offset@, rs.last().path@]
    }
}

/// The full `esptool` argument list for `p`.
pub open spec fn esptool_args(p: FlashParams) -> Seq<Seq<char>> {
    esptool_head(p) + region_args(p.regions@)
}

/// Builds the `esptool` arguments: chip, port, baud, reset modes,
/// `write_flash`, then each region's offset and path.
pub fn build_esptool_args(p: &FlashParams) -> (args: Vec<String>)
    ensures
        string_views(args@) == esptool_args(*p),
{
    let mut args: Vec<String> = Vec::new();
    push_string(&mut args, "--chip".to_owned());
    push_string(&mut args, p.chip_arg.clone());
    push_string(&mut args, "--port".to_owned());
    push_string(&mut args, p.port.clone());
    push_string(&mut args, "--baud".to_owned());
    push_string(&mut args, u64_to_string(p.baud as u64));
    push_string(&mut args, "--before".to_owned());
    push_string(&mut args, "default_reset".to_owned());
    push_string(&mut args, "--after".to_owned());
    push_string(&mut args, "hard_reset".to_owned());
    push_string(&mut args, "write_flash".to_owned());
    assert(string_views(args@) =~= esptool_head(*p));
    let mut i: usize = 0;
    while i < p.regions.len()
        invariant
            i <= p.regions@.len(),
            string_views(args@) == esptool_head(*p) + region_args(p.regions@.take(i as int)),
        decreases p.regions@.len() - i,
    {
        push_string(&mut args, p.regions[i].offset.clone());
        push_string(&mut args, p.regions[i].path.clone());
        proof {
            assert(p.regions@.take(i as int + 1).drop_last() =~= p.regions@.take(i as int));
        }
        i = i + 1;
        assert(string_views(args@) =~= esptool_head(*p) + region_args(p.regions@.take(i as int)));
    }
    assert(p.regions@.take(i as int) =~= p.regions@);
    args
}

/// The coarse phase an `esptool` output line reports, matched on its
/// ASCII-lowercased text in this order of precedence.
pub open spec fn esptool_phase(line: Seq<char>) -> Seq<char> {
    let lower = ascii_lower_seq(line);
    if contains_seq(lower, "connecting"@) {
        "connecting"@
    } else if contains_seq(lower, "hash of data verified"@) {
        "verified"@
    } else if contains_seq(lower, "writing at"@) {
        "writing"@
    } else if contains_seq(lower, "compressed"@) {
        "erasing"@
    } else if contains_seq(lower, "wrote "@) {
        "verifying"@
    } else if contains_seq(lower, "resetting"@) {
        "resetting"@
    } else {
        "other"@
    }
}

/// Maps an `esptool` stdout line to a coarse phase.
pub fn classify_esptool_line(line: &str) -> (phase: String)
    ensures
        phase@ == esptool_phase(line@),
{
    let lower = to_ascii_lowercase(&chars_of(line));
    let p: &str = if contains(&lower, &chars_of("connecting")) {
        "connecting"
    } else if contains(&lower, &chars_of("hash of data verified")) {
        "verified"
    } else if contains(&lower, &chars_of("writing at")) {
        "writing"
    } else if contains(&lower, &chars_of("compressed")) {
        "erasing"
    } else if contains(&lower, &chars_of("wrote ")) {
        "verifying"
    } else if contains(&lower, &chars_of("resetting")) {
        "resetting"
    } else {
        "other"
    };
    p.to_owned()
}

/// Why a flash session may not start: an error code and its text.
#[derive(Debug, Clone)]
pub struct FlashRefusal {
    pub code: u8,
    pub message: String,
}

/// A session is already running.
pub const ERR_BUSY: u8 = 0x02;
/// No parameters were deposited before the start command.
pub const ERR_NO_PARAMS: u8 = 0x03;
/// The configured program is `espflash`, which must not be used.
pub const ERR_TOOL_BANNED: u8 = 0x04;

/// The refusal a start request meets, if any: busy first, then missing
/// parameters, then a banned program (one whose name contains `espflash`).
pub open spec fn start_refusal(busy: bool, has_params: bool, program: Seq<char>) -> Option<u8> {
    if busy {
        Some(ERR_BUSY)
    } else if !has_params {
        Some(ERR_NO_PARAMS)
    } else if contains_seq(program, "espflash"@) {
        Some(ERR_TOOL_BANNED)
    } else {
        None
    }
}

/// The text that comes with a refusal code.
pub open spec fn refusal_text(code: u8) -> Seq<char> {
    if code == ERR_BUSY {
        "flasher session already running"@
    } else if code == ERR_NO_PARAMS {
        "no FlashParams in slot \u{2014} Deploy sentant must fill before firing CMD_START"@
    } else {
        "espflash is banned; use esptool"@
    }
}

/// Decides a start request: refused (with code and message), or the
/// argument list to spawn `program` with — the fixed override when one
/// is configured, the `esptool` arguments for `params` otherwise.
pub fn plan_start(
    busy: bool,
    params: Option<&FlashParams>,
    program: &str,
    args_override: Option<&Vec<String>>,
) -> (r: Result<Vec<String>, FlashRefusal>)
    ensures
        match start_refusal(busy, params is Some, program@) {
            Some(code) => r matches Err(f) && f.code == code && f.message@ == refusal_text(code),
            None => r matches Ok(args) && string_views(args@) == match args_override {
                Some(o) => string_views(o@),
                None => esptool_args(*params->0),
            },
        },
{
    if busy {
        return Err(FlashRefusal { code: ERR_BUSY, message: "flasher session already running".to_owned() });
    }
    let p = match params {
        Some(p) => p,
        None => {
            return Err(
                FlashRefusal {
                    code: ERR_NO_PARAMS,
                    message: "no FlashParams in slot — Deploy sentant must fill before firing CMD_START".to_owned(),
                },
            );
        },
    };
    if contains(&chars_of(program), &chars_of("espflash")) {
        return Err(FlashRefusal { code: ERR_TOOL_BANNED, message: "espflash is banned; use esptool".to_owned() });
    }
    match args_override {
        Some(o) => {
            let mut out: Vec<String> = Vec::new();
            let mut i: usize = 0;
            while i < o.len()
                invariant
                    i <= o@.len(),
                    string_views(out@) == string_views(o@.take(i as int)),
                decreases o@.len() - i,
            {
                push_string(&mut out, o[i].clone());
                assert(o@.take(i as int + 1) =~= o@.take(i as int).push(o@[i as int]));
                proof {
                    crate::text::lemma_string_views_push(o@.take(i as int), o@[i as int]);
                }
                i = i + 1;
            }
            assert(o@.take(i as int) =~= o@);
            Ok(out)
        },
        None => Ok(build_esptool_args(p)),
    }
}

/// The text of an optional string.
pub open spec fn opt_str_view(o: Option<String>) -> Option<Seq<char>> {
    match o {
        Some(x) => Some(x@),
        None => None,
    }
}

/// What a flash session reports.
#[derive(Debug, Clone)]
pub enum FlashEvent {
    /// One parsed stdout line.
    Progress { phase: String, line: String },
    /// The tool exited with status 0; the SHA-256 of the flashed image
    /// when it was given.
    Done { exit_code: i32, port: String, slot_id: String, artefact_sha256: Option<String> },
    /// The tool failed.
    Error { message: String, exit_code: i32, stderr_tail: String, slot_id: String },
}

/// The progress event for one stdout line.
pub fn progress_event(line: &str) -> (e: FlashEvent)
    ensures
        e matches FlashEvent::Progress { phase, line: l } && phase@ == esptool_phase(line@) && l@
            == line@,
{
    FlashEvent::Progress { phase: classify_esptool_line(line), line: line.to_owned() }
}

/// The event for the tool's exit status: done on `0`, an error naming
/// the code otherwise.
pub fn exit_event(
    code: i32,
    port: &str,
    slot_id: &str,
    firmware_sha256: &Option<String>,
    stderr_tail: &str,
) -> (e: FlashEvent)
    ensures
        code == 0 ==> (e matches FlashEvent::Done { exit_code, port: p, slot_id: s, artefact_sha256: a }
            && exit_code == 0 && p@ == port@ && s@ == slot_id@ && opt_str_view(a)
            == opt_str_view(*firmware_sha256)),
        code != 0 ==> (e matches FlashEvent::Error { message, exit_code, stderr_tail: t, slot_id: s }
            && message@ == "esptool exited with code "@ + crate::text::int_text(code as int)
            && exit_code == code && t@ == stderr_tail@ && s@ == slot_id@),
{
    if code == 0 {
        let artefact_sha256 = match firmware_sha256 {
            Some(h) => Some(h.clone()),
            None => None,
        };
        FlashEvent::Done { exit_code: 0, port: port.to_owned(), slot_id: slot_id.to_owned(), artefact_sha256 }
    } else {
        let mut m: Vec<char> = chars_of("esptool exited with code ");
        crate::text::push_i64(&mut m, code as i64);
        FlashEvent::Error {
            message: string_from_chars(&m),
            exit_code: code,
            stderr_tail: stderr_tail.to_owned(),
            slot_id: slot_id.to_owned(),
        }
    }
}

/// How many stderr lines an error report keeps.
pub const STDERR_TAIL_LINES: usize = 32;

/// Appends a stderr line, dropping the oldest beyond the last 32.
pub fn push_stderr_line(tail: &mut Vec<String>, line: String)
    requires
        old(tail)@.len() <= STDERR_TAIL_LINES,
    ensures
        final(tail)@.len() <= STDERR_TAIL_LINES,
        old(tail)@.len() < STDERR_TAIL_LINES ==> final(tail)@ == old(tail)@.push(line),
        old(tail)@.len() == STDERR_TAIL_LINES ==> final(tail)@ == old(tail)@.push(line).drop_first(),
{
    tail.push(line);
    if tail.len() > STDERR_TAIL_LINES {
        tail.remove(0);
    }
    assert(old(tail)@.len() == STDERR_TAIL_LINES ==> tail@ =~= old(tail)@.push(line).drop_first());
}

/// Command: start a flash.
pub const CMD_START: u8 = 0x01;
/// Command: forget the running flash.
pub const CMD_CANCEL: u8 = 0x02;
/// Error: the tool could not be spawned.
pub const ERR_SPAWN: u8 = 0x01;
/// Error: unknown command byte.
pub const ERR_UNKNOWN_COMMAND: u8 = 0xFE;

/// What a command to the flasher asks for.
#[derive(Debug, Clone)]
pub enum FlasherCommand {
    /// Plan a start (see [`plan_start`]).
    Start,
    /// Forget the running session.
    Cancel,
    /// Refuse an unknown command byte.
    Refuse(FlashRefusal),
}

/// Reads a command byte.
pub fn flasher_command(command: u8) -> (c: FlasherCommand)
    ensures
        command == CMD_START ==> c is Start,
        command == CMD_CANCEL ==> c is Cancel,
        command != CMD_START && command != CMD_CANCEL ==> (c matches FlasherCommand::Refuse(f) && f.code
            == ERR_UNKNOWN_COMMAND && f.message@ == "unknown command byte"@),
{
    if command == CMD_START {
        FlasherCommand::Start
    } else if command == CMD_CANCEL {
        FlasherCommand::Cancel
    } else {
        FlasherCommand::Refuse(FlashRefusal { code: ERR_UNKNOWN_COMMAND, message: "unknown command byte".to_string() })
    }
}

} // verus!

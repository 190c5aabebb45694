//! The decisions of the coding-assistant session plugin, which drives
//! the assistant's command-line tool in stream-json output mode: how a stream-json
//! line becomes progress messages (its kind, and its assistant text cut
//! into chunks that fit the bus's payload budget), what the exit status
//! becomes, and which event each message is emitted as.
//!
//! Spawning the process, reading its output and encoding payloads as
//! JSON are the host's work; a line reaches this module as the fields it
//! was found to carry.

use vstd::prelude::*;
use vstd::utf8::{char_is_scalar, encode_scalar, encode_utf8};

use crate::fnv::{fnv1a_32, str_hash};
use crate::text::{chars_of, int_text, push_i64, push_str, str_eq, string_from_chars, string_views};

verus! {

/// Command: start a session.
pub const CMD_START: u8 = 0x01;
/// Command: cancel the running session.
pub const CMD_CANCEL: u8 = 0x02;
/// Error: the process could not be spawned.
pub const ERR_SPAWN: u8 = 0x01;
/// Error: a session is already running.
pub const ERR_BUSY: u8 = 0x02;
/// Error: unknown command byte.
pub const ERR_UNKNOWN_COMMAND: u8 = 0xFE;
/// The byte budget of one text chunk.
pub const TEXT_CHUNK_BYTES: usize = 150;

/// The UTF-8 width of a character.
pub open spec fn char_width(c: char) -> nat {
    encode_scalar(c as u32).len()
}

/// How many leading characters of `s` fit, in order, in `max` bytes.
pub open spec fn fit(s: Seq<char>, max: int) -> nat
    decreases s.len(),
{
    if s.len() == 0 {
        0
    } else if char_width(s[0]) <= max {
        1 + fit(s.drop_first(), max - char_width(s[0]))
    } else {
        0
    }
}

/// `s` cut into chunks of at most `max` UTF-8 bytes, each as long as it
/// can be; the cutting stops early at a character wider than `max`.
pub open spec fn chunks_spec(s: Seq<char>, max: int) -> Seq<Seq<char>>
    decreases s.len(),
{
    let k = fit(s, max);
    if s.len() == 0 || k == 0 {
        Seq::empty()
    } else {
        proof {
            lemma_fit_le(s, max);
        }
        seq![s.take(k as int)] + chunks_spec(s.skip(k as int), max)
    }
}

/// What fits is never more than there is.
pub proof fn lemma_fit_le(s: Seq<char>, max: int)
    ensures
        fit(s, max) <= s.len(),
    decreases s.len(),
{
    if s.len() > 0 && char_width(s[0]) <= max {
        lemma_fit_le(s.drop_first(), max - char_width(s[0]));
    }
}

proof fn lemma_width_bounds(c: char)
    ensures
        1 <= char_width(c) <= 4,
{
}

proof fn lemma_fit_budget(s: Seq<char>, max: int)
    requires
        max >= 0,
    ensures
        encode_utf8(s.take(fit(s, max) as int)).len() <= max,
    decreases s.len(),
{
    let k = fit(s, max);
    if s.len() == 0 || k == 0 {
        assert(s.take(k as int) =~= Seq::<char>::empty());
    } else {
        let w = char_width(s[0]);
        lemma_fit_le(s, max);
        lemma_fit_budget(s.drop_first(), max - w);
        assert(s.take(k as int).drop_first() =~= s.drop_first().take(k - 1));
        assert(s.take(k as int)[0] == s[0]);
    }
}

/// Every chunk fits its byte budget: its UTF-8 encoding is at most `max`
/// bytes.
pub proof fn law_chunks_fit_budget(s: Seq<char>, max: int)
    requires
        max >= 0,
    ensures
        forall|i: int| 0 <= i < chunks_spec(s, max).len() ==> encode_utf8(#[trigger] chunks_spec(s, max)[i]).len() <= max,
    decreases s.len(),
{
    let k = fit(s, max);
    if s.len() > 0 && k > 0 {
        lemma_fit_le(s, max);
        lemma_fit_budget(s, max);
        law_chunks_fit_budget(s.skip(k as int), max);
        let c = chunks_spec(s, max);
        let r = chunks_spec(s.skip(k as int), max);
        assert forall|i: int| 0 <= i < c.len() implies encode_utf8(#[trigger] c[i]).len() <= max by {
            if i > 0 {
                assert(c[i] == r[i - 1]);
            }
        }
    }
}

/// With a budget of at least four bytes (the widest character), the
/// chunks put back together give the whole text.
pub proof fn law_chunks_rejoin(s: Seq<char>, max: int)
    requires
        max >= 4,
    ensures
        chunks_spec(s, max).flatten() == s,
    decreases s.len(),
{
    if s.len() > 0 {
        lemma_width_bounds(s[0]);
        let k = fit(s, max);
        assert(k >= 1);
        lemma_fit_le(s, max);
        law_chunks_rejoin(s.skip(k as int), max);
        let c = chunks_spec(s, max);
        assert(c[0] == s.take(k as int));
        assert(c.drop_first() =~= chunks_spec(s.skip(k as int), max));
        assert(s.take(k as int) + s.skip(k as int) =~= s);
    } else {
        assert(chunks_spec(s, max) =~= Seq::<Seq<char>>::empty());
    }
}

/// The UTF-8 width of `c`.
fn width_of(c: char) -> (w: usize)
    ensures
        w == char_width(c),
        1 <= w <= 4,
{
    proof {
        char_is_scalar(c);
    }
    let v = c as u32;
    if v <= 0x7F {
        1
    } else if v <= 0x7FF {
        2
    } else if v <= 0xFFFF {
        3
    } else {
        4
    }
}

fn fit_count(s: &Vec<char>, start: usize, max: usize) -> (k: usize)
    requires
        start <= s@.len(),
    ensures
        k == fit(s@.skip(start as int), max as int),
        start + k <= s@.len(),
{
    let mut j: usize = start;
    let mut used: usize = 0;
    while j < s.len()
        invariant_except_break
            start <= j <= s@.len(),
            used <= max,
            fit(s@.skip(start as int), max as int) == (j - start) + fit(s@.skip(j as int), max - used),
        ensures
            start <= j <= s@.len(),
            fit(s@.skip(start as int), max as int) == (j - start),
        decreases s@.len() - j,
    {
        let w = width_of(s[j]);
        assert(s@.skip(j as int)[0] == s@[j as int]);
        assert(s@.skip(j as int).drop_first() =~= s@.skip(j + 1));
        if w > max - used {
            break;
        }
        used = used + w;
        j = j + 1;
    }
    j - start
}

/// Cuts `text` into chunks of at most `max` UTF-8 bytes without splitting
/// a character (see [`chunks_spec`]).
pub fn chunk_text(text: &str, max: usize) -> (r: Vec<String>)
    ensures
        string_views(r@) == chunks_spec(text@, max as int),
        forall|i: int|
            0 <= i < r@.len() ==> 1 <= (#[trigger] r@[i])@.len() && encode_utf8(r@[i]@).len() <= max,
        max >= 4 ==> string_views(r@).flatten() == text@,
        max >= 4 ==> (r@.len() == 0 <==> text@.len() == 0),
{
    let cs = chars_of(text);
    let mut out: Vec<String> = Vec::new();
    let mut i: usize = 0;
    assert(cs@.skip(0) =~= cs@);
    assert(string_views(out@) + chunks_spec(cs@, max as int) =~= chunks_spec(cs@, max as int));
    loop
        invariant_except_break
            i <= cs@.len(),
            cs@ == text@,
            string_views(out@) + chunks_spec(cs@.skip(i as int), max as int) == chunks_spec(text@, max as int),
        ensures
            string_views(out@) == chunks_spec(text@, max as int),
        decreases cs@.len() - i,
    {
        if i >= cs.len() {
            assert(cs@.skip(i as int) =~= Seq::<char>::empty());
            assert(string_views(out@) + Seq::<Seq<char>>::empty() =~= string_views(out@));
            break;
        }
        let k = fit_count(&cs, i, max);
        let ghost rest = cs@.skip(i as int);
        if k == 0 {
            assert(chunks_spec(rest, max as int) == Seq::<Seq<char>>::empty());
            assert(string_views(out@) + Seq::<Seq<char>>::empty() =~= string_views(out@));
            break;
        }
        let mut piece: Vec<char> = Vec::new();
        let mut t: usize = i;
        let end: usize = i + k;
        while t < end
            invariant
                i <= t <= end,
                end == i + k,
                end <= cs@.len(),
                piece@ == cs@.subrange(i as int, t as int),
            decreases end - t,
        {
            piece.push(cs[t]);
            t = t + 1;
            assert(piece@ =~= cs@.subrange(i as int, t as int));
        }
        let ghost before = out@;
        crate::text::push_string(&mut out, string_from_chars(&piece));
        proof {
            assert(rest.take(k as int) =~= cs@.subrange(i as int, i + k));
            assert(rest.skip(k as int) =~= cs@.skip(i + k));
            assert(chunks_spec(rest, max as int) == seq![rest.take(k as int)] + chunks_spec(rest.skip(k as int), max as int));
            assert(string_views(out@) + chunks_spec(cs@.skip(i + k), max as int) =~= string_views(before)
                + chunks_spec(rest, max as int));
        }
        i = i + k;
    }
    proof {
        law_chunks_fit_budget(text@, max as int);
        lemma_chunks_nonempty(text@, max as int);
        assert forall|j: int| 0 <= j < out@.len() implies 1 <= (#[trigger] out@[j])@.len() && encode_utf8(
            out@[j]@,
        ).len() <= max by {
            assert(string_views(out@)[j] == out@[j]@);
        }
        if max >= 4 {
            law_chunks_rejoin(text@, max as int);
            if text@.len() > 0 {
                lemma_width_bounds(text@[0]);
                lemma_fit_le(text@, max as int);
            }
        }
    }
    out
}

/// Every chunk holds at least one character.
proof fn lemma_chunks_nonempty(s: Seq<char>, max: int)
    ensures
        forall|i: int| 0 <= i < chunks_spec(s, max).len() ==> (#[trigger] chunks_spec(s, max)[i]).len() >= 1,
    decreases s.len(),
{
    let k = fit(s, max);
    if s.len() > 0 && k > 0 {
        lemma_fit_le(s, max);
        lemma_chunks_nonempty(s.skip(k as int), max);
        let c = chunks_spec(s, max);
        let r = chunks_spec(s.skip(k as int), max);
        assert forall|i: int| 0 <= i < c.len() implies (#[trigger] c[i]).len() >= 1 by {
            if i > 0 {
                assert(c[i] == r[i - 1]);
            }
        }
    }
}

/// One content item of an assistant message: its `type` and `text`
/// strings, where present.
#[derive(Debug, Clone)]
pub struct ContentItem {
    pub kind: Option<String>,
    pub text: Option<String>,
}

/// A stream-json line, as the fields this plugin reads: its `type`
/// string and the `message.content` array.
#[derive(Debug, Clone)]
pub struct StreamLine {
    pub kind: Option<String>,
    pub content: Option<Vec<ContentItem>>,
}

/// The kind of a line: its `type` string, else `"unknown"` (also for a
/// line that is not a JSON object).
pub open spec fn kind_spec(line: Option<StreamLine>) -> Seq<char> {
    match line {
        Some(l) => match l.kind {
            Some(k) => k@,
            None => "unknown"@,
        },
        None => "unknown"@,
    }
}

/// The texts of the `text` items of a content array, joined.
pub open spec fn joined_texts(items: Seq<ContentItem>) -> Seq<char>
    decreases items.len(),
{
    if items.len() == 0 {
        Seq::empty()
    } else {
        let it = items.last();
        joined_texts(items.drop_last()) + match (it.kind, it.text) {
            (Some(k), Some(t)) if k@ == "text"@ => t@,
            _ => Seq::empty(),
        }
    }
}

/// The user-visible text of a line: for an `assistant` line, its text
/// items joined, when that is not empty.
pub open spec fn text_spec(line: Option<StreamLine>) -> Option<Seq<char>> {
    match line {
        Some(l) => match (l.kind, l.content) {
            (Some(k), Some(items)) if k@ == "assistant"@ => {
                let t = joined_texts(items@);
                if t.len() > 0 {
                    Some(t)
                } else {
                    None
                }
            },
            _ => None,
        },
        None => None,
    }
}

/// The kind of a stream-json line.
pub fn parse_kind(line: Option<&StreamLine>) -> (k: String)
    ensures
        k@ == kind_spec(match line {
            Some(l) => Some(*l),
            None => None,
        }),
{
    match line {
        Some(l) => match &l.kind {
            Some(k) => k.clone(),
            None => "unknown".to_string(),
        },
        None => "unknown".to_string(),
    }
}

/// The assistant text a line carries, if any.
pub fn extract_text_content(line: Option<&StreamLine>) -> (r: Option<String>)
    ensures
        match r {
            Some(t) => text_spec(match line {
                Some(l) => Some(*l),
                None => None,
            }) == Some(t@),
            None => text_spec(match line {
                Some(l) => Some(*l),
                None => None,
            }) is None,
        },
{
    let l = match line {
        Some(l) => l,
        None => return None,
    };
    let kind = match &l.kind {
        Some(k) => k,
        None => return None,
    };
    let items = match &l.content {
        Some(v) => v,
        None => return None,
    };
    if !str_eq(kind.as_str(), "assistant") {
        return None;
    }
    let mut out: Vec<char> = Vec::new();
    let mut i: usize = 0;
    while i < items.len()
        invariant
            i <= items@.len(),
            out@ == joined_texts(items@.take(i as int)),
        decreases items@.len() - i,
    {
        let it = &items[i];
        assert(items@.take(i + 1).drop_last() =~= items@.take(i as int));
        assert(items@.take(i + 1).last() == items@[i as int]);
        match (&it.kind, &it.text) {
            (Some(k), Some(t)) => {
                if str_eq(k.as_str(), "text") {
                    push_str(&mut out, t.as_str());
                } else {
                    assert(out@ + Seq::<char>::empty() =~= out@);
                }
            },
            _ => {
                assert(out@ + Seq::<char>::empty() =~= out@);
            },
        }
        i = i + 1;
    }
    assert(items@.take(items@.len() as int) =~= items@);
    if out.len() == 0 {
        None
    } else {
        Some(string_from_chars(&out))
    }
}

/// A message from the session worker.
#[derive(Debug, Clone)]
pub enum WorkerMsg {
    /// A chunk of assistant text.
    Text { kind: String, chunk: String },
    /// A line with no text to show.
    Meta { kind: String },
    /// The process exited with status zero.
    Done { exit_code: i32 },
    /// Setup, read or exit failure.
    Error { message: String, exit_code: i32 },
}

/// The messages one line becomes: a text message per chunk of its
/// assistant text, or a single meta message.
pub open spec fn line_messages_spec(line: Option<StreamLine>, msgs: Seq<WorkerMsg>) -> bool {
    let kind = kind_spec(line);
    match text_spec(line) {
        Some(t) => {
            let cs = chunks_spec(t, TEXT_CHUNK_BYTES as int);
            &&& msgs.len() == cs.len()
            &&& forall|i: int|
                0 <= i < cs.len() ==> (#[trigger] msgs[i] matches WorkerMsg::Text { kind: k, chunk: c }
                    && k@ == kind && c@ == cs[i])
        },
        None => msgs.len() == 1 && (msgs[0] matches WorkerMsg::Meta { kind: k } && k@ == kind),
    }
}

/// Turns one stream-json line into the messages it yields.
pub fn line_messages(line: Option<&StreamLine>) -> (msgs: Vec<WorkerMsg>)
    ensures
        line_messages_spec(match line {
            Some(l) => Some(*l),
            None => None,
        }, msgs@),
{
    let kind = parse_kind(line);
    let mut out: Vec<WorkerMsg> = Vec::new();
    match extract_text_content(line) {
        Some(text) => {
            let chunks = chunk_text(text.as_str(), TEXT_CHUNK_BYTES);
            let mut i: usize = 0;
            while i < chunks.len()
                invariant
                    i <= chunks@.len(),
                    out@.len() == i,
                    forall|j: int|
                        0 <= j < i ==> (#[trigger] out@[j] matches WorkerMsg::Text { kind: k, chunk: c } && k@
                            == kind@ && c@ == chunks@[j]@),
                decreases chunks@.len() - i,
            {
                out.push(WorkerMsg::Text { kind: kind.clone(), chunk: chunks[i].clone() });
                i = i + 1;
            }
            proof {
                assert forall|j: int| 0 <= j < chunks@.len() implies string_views(chunks@)[j] == chunks@[j]@ by {}
            }
        },
        None => {
            out.push(WorkerMsg::Meta { kind });
        },
    }
    out
}

/// What the exit becomes: done on status zero, else an error naming the
/// tool and the status (`-1` where the process had none, killed by a
/// signal).
pub fn exit_message(tool: &str, code: Option<i32>) -> (m: WorkerMsg)
    ensures
        ({
            let c: i32 = match code {
                Some(c) => c,
                None => -1i32,
            };
            if c == 0 {
                m matches WorkerMsg::Done { exit_code: e } && e == 0
            } else {
                m matches WorkerMsg::Error { message: s, exit_code: e } && e == c && s@
                    == tool@ + " exited with code "@ + int_text(c as int)
            }
        }),
{
    let c: i32 = match code {
        Some(c) => c,
        None => -1,
    };
    if c == 0 {
        WorkerMsg::Done { exit_code: 0 }
    } else {
        let mut v: Vec<char> = chars_of(tool);
        push_str(&mut v, " exited with code ");
        push_i64(&mut v, c as i64);
        WorkerMsg::Error { message: string_from_chars(&v), exit_code: c }
    }
}

/// The hashes of `build.progress`, `build.done` and `build.error`.
pub fn hashes() -> (h: (u32, u32, u32))
    ensures
        h == (
            str_hash("r2.composer.build.progress"),
            str_hash("r2.composer.build.done"),
            str_hash("r2.composer.build.error"),
        ),
{
    (fnv1a_32("r2.composer.build.progress"), fnv1a_32("r2.composer.build.done"), fnv1a_32("r2.composer.build.error"))
}

/// The event a message is emitted as (by hash), and whether it ends the
/// session: text and meta lines are progress; done and error end it.
pub fn message_event(m: &WorkerMsg) -> (r: (u32, bool))
    ensures
        r == match *m {
            WorkerMsg::Text { .. } => (str_hash("r2.composer.build.progress"), false),
            WorkerMsg::Meta { .. } => (str_hash("r2.composer.build.progress"), false),
            WorkerMsg::Done { .. } => (str_hash("r2.composer.build.done"), true),
            WorkerMsg::Error { .. } => (str_hash("r2.composer.build.error"), true),
        },
{
    let (p, d, e) = hashes();
    match m {
        WorkerMsg::Text { .. } => (p, false),
        WorkerMsg::Meta { .. } => (p, false),
        WorkerMsg::Done { .. } => (d, true),
        WorkerMsg::Error { .. } => (e, true),
    }
}

/// What a command asks for.
#[derive(Debug, Clone)]
pub enum SessionStep {
    /// Spawn a session.
    Start,
    /// Drop the running session.
    Cancel,
    /// Refuse with this code and message.
    Refuse { code: u8, message: String },
}

/// Decides a command: start unless a session runs, cancel, or refuse an
/// unknown byte.
pub fn command_step(command: u8, running: bool) -> (s: SessionStep)
    ensures
        command == CMD_START && !running ==> s is Start,
        command == CMD_START && running ==> (s matches SessionStep::Refuse { code: c, message: m } && c == ERR_BUSY
            && m@ == "session already running"@),
        command == CMD_CANCEL ==> s is Cancel,
        command != CMD_START && command != CMD_CANCEL ==> (s matches SessionStep::Refuse { code: c, message: m } && c
            == ERR_UNKNOWN_COMMAND && m@ == "unknown command byte"@),
{
    if command == CMD_START {
        if running {
            SessionStep::Refuse { code: ERR_BUSY, message: "session already running".to_string() }
        } else {
            SessionStep::Start
        }
    } else if command == CMD_CANCEL {
        SessionStep::Cancel
    } else {
        SessionStep::Refuse { code: ERR_UNKNOWN_COMMAND, message: "unknown command byte".to_string() }
    }
}

/// The brief a session is started with: the one left in the side slot
/// (as its UTF-8 bytes), else the command's data.
pub fn pick_brief(slot: Option<String>, data: &[u8]) -> (b: Vec<u8>)
    ensures
        b@ == match slot {
            Some(s) => encode_utf8(s@),
            None => data@,
        },
{
    match slot {
        Some(s) => vstd::slice::slice_to_vec(s.as_str().as_bytes()),
        None => vstd::slice::slice_to_vec(data),
    }
}

} // verus!

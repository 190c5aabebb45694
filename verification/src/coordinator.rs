//! The test-run coordinator: the decisions of the sentant that drives a
//! transient-networking run. Each inbound event (an injection, a node's
//! delivery report, or a request to adjudicate an assert) moves the
//! coordinator to its next state and yields at most one event to emit.
//! Decoding payloads and sending the emitted events is left to the host.

use vstd::prelude::*;

use crate::fnv::{fnv1a_32, fnv_prefix, fnv_step, lemma_ascii_hash, str_hash, FNV_OFFSET_BASIS};
use crate::ledger::{
    copy_count, delivered_by, exactly_once, exactly_once_holds, first_dropped, least_duplicate,
    never_text, no_drop, no_drop_holds, no_duplicate, no_duplicate_holds, reached_text, views,
    AssertFail, AssertResult, DeliveryLedger, MsgKey,
};
use crate::text::{dec_spec, debug_quoted, str_debug, str_eq, string_views};

verus! {

/// The fields an inbound payload may carry; each is `None` (or empty)
/// where the payload lacks it or holds a value of another JSON type.
#[derive(Debug, Clone)]
pub struct TcPayload {
    pub origin: Option<u64>,
    pub msg_id: Option<u64>,
    pub node: Option<String>,
    pub kind: Option<String>,
    /// The string entries of `dests`, in order.
    pub dests: Vec<String>,
    pub max: Option<u64>,
}

/// An event the coordinator emits, broadcast under its event hash.
#[derive(Debug, Clone)]
pub enum TcEmit {
    /// `r2.tn.injected {origin, msg_id}`.
    Injected { origin: u64, msg_id: u64 },
    /// `r2.tn.delivered {node, origin, msg_id, copies}`.
    Delivered { node: String, origin: u64, msg_id: u64, copies: u32 },
    /// `r2.tn.result {kind, origin, msg_id, ok, detail}`.
    Verdict { kind: String, origin: u32, msg_id: u32, ok: bool, detail: String },
}

#[derive(Debug, Clone, Copy, PartialEq, Eq, Structural)]
enum RunState {
    Idle,
    Running,
}

/// The key a payload's `(origin, msg_id)` addresses: each truncated to
/// 32 bits.
pub open spec fn key_of(origin: u64, msg_id: u64) -> MsgKey {
    MsgKey { origin: origin as u32, msg_id: msg_id as u32 }
}

/// The text of an optional string, empty where absent.
pub open spec fn text_or_empty(s: Option<String>) -> Seq<char> {
    match s {
        Some(t) => t@,
        None => Seq::empty(),
    }
}

/// The outcome of adjudicating assert `kind` over `led`: whether it
/// passed, and the failure detail (empty on a pass).
pub open spec fn verdict(
    led: DeliveryLedger,
    kind: Seq<char>,
    key: MsgKey,
    node: Seq<char>,
    dests: Seq<Seq<char>>,
    max: u32,
    ok: bool,
    detail: Seq<char>,
) -> bool {
    if kind == "exactly_once"@ {
        &&& ok == exactly_once_holds(led, key, node)
        &&& detail == if ok {
            Seq::<char>::empty()
        } else {
            reached_text(key, node, led.count(key, node), "want 1"@)
        }
    } else if kind == "no_duplicate"@ {
        &&& ok == no_duplicate_holds(led, key)
        &&& ok ==> detail == Seq::<char>::empty()
        &&& !ok ==> exists|n: Seq<char>|
            least_duplicate(led, key, n) && detail == reached_text(
                key,
                n,
                led.count(key, n),
                "want ≤1"@,
            )
    } else if kind == "no_drop"@ {
        &&& ok == no_drop_holds(led, key, dests)
        &&& ok ==> detail == Seq::<char>::empty()
        &&& !ok ==> exists|i: int| first_dropped(led, key, dests, i) && detail == never_text(key, dests[i])
    } else if kind == "copy_count"@ {
        &&& ok == (led.count(key, node) <= max)
        &&& detail == if ok {
            Seq::<char>::empty()
        } else {
            reached_text(key, node, led.count(key, node), "max "@ + dec_spec(max as nat))
        }
    } else if kind == "delivered_by"@ {
        &&& ok == (led.count(key, node) >= 1)
        &&& detail == if ok {
            Seq::<char>::empty()
        } else {
            never_text(key, node)
        }
    } else {
        &&& !ok
        &&& detail == "unknown assert kind "@ + debug_quoted(kind)
    }
}

/// The detail text of an assert result (empty on a pass).
pub open spec fn result_detail(r: AssertResult) -> Seq<char> {
    match r {
        Ok(_) => Seq::empty(),
        Err(f) => f.detail@,
    }
}

/// Adjudicates assert `kind` over `led`; an unknown kind fails.
pub fn run_assert(
    led: &DeliveryLedger,
    kind: &str,
    key: MsgKey,
    node: &str,
    dests: &[&str],
    max: u32,
) -> (r: AssertResult)
    ensures
        verdict(*led, kind@, key, node@, views(dests@), max, r is Ok, result_detail(r)),
{
    if str_eq(kind, "exactly_once") {
        exactly_once(led, key, node)
    } else if str_eq(kind, "no_duplicate") {
        no_duplicate(led, key)
    } else if str_eq(kind, "no_drop") {
        no_drop(led, key, dests)
    } else if str_eq(kind, "copy_count") {
        copy_count(led, key, node, max)
    } else if str_eq(kind, "delivered_by") {
        delivered_by(led, key, node)
    } else {
        let q = str_debug(kind);
        let mut v: Vec<char> = crate::text::chars_of("unknown assert kind ");
        crate::text::push_str(&mut v, q.as_str());
        Err(AssertFail { which: "unknown", detail: crate::text::string_from_chars(&v) })
    }
}

/// The run coordinator: its ledger, the keys injected so far, and the
/// hashes of the events it consumes and emits.
pub struct TestCoordinator {
    state: RunState,
    ledger: DeliveryLedger,
    injected: Vec<MsgKey>,
    h_inject: u32,
    h_report: u32,
    h_assert: u32,
    h_injected: u32,
    h_delivered: u32,
    h_result: u32,
}

impl TestCoordinator {
    #[verifier::type_invariant]
    spec fn well_formed(self) -> bool {
        &&& self.h_inject == str_hash("r2.tn.inject")
        &&& self.h_report == str_hash("r2.tn.report")
        &&& self.h_assert == str_hash("r2.tn.assert")
        &&& self.h_injected == str_hash("r2.tn.injected")
        &&& self.h_delivered == str_hash("r2.tn.delivered")
        &&& self.h_result == str_hash("r2.tn.result")
        &&& self.injected@.no_duplicates()
    }

    /// Has a run started (has anything been injected)?
    pub closed spec fn running(self) -> bool {
        self.state == RunState::Running
    }

    /// The keys injected so far.
    pub closed spec fn injected_keys(self) -> Set<MsgKey> {
        self.injected@.to_set()
    }

    /// The delivery ledger of the run.
    pub closed spec fn run_ledger(self) -> DeliveryLedger {
        self.ledger
    }

    /// An idle coordinator with an empty ledger.
    pub fn new() -> (c: Self)
        ensures
            !c.running(),
            c.injected_keys() == Set::<MsgKey>::empty(),
            forall|m: MsgKey, n: Seq<char>| #[trigger] c.run_ledger().count(m, n) == 0,
    {
        let c = TestCoordinator {
            state: RunState::Idle,
            ledger: DeliveryLedger::new(),
            injected: Vec::new(),
            h_inject: fnv1a_32("r2.tn.inject"),
            h_report: fnv1a_32("r2.tn.report"),
            h_assert: fnv1a_32("r2.tn.assert"),
            h_injected: fnv1a_32("r2.tn.injected"),
            h_delivered: fnv1a_32("r2.tn.delivered"),
            h_result: fnv1a_32("r2.tn.result"),
        };
        assert(c.injected@.to_set() =~= Set::<MsgKey>::empty());
        c
    }

    /// The state id: `0` idle, `1` running.
    pub fn state(&self) -> (s: u32)
        ensures
            s == if self.running() {
                1u32
            } else {
                0u32
            },
    {
        match self.state {
            RunState::Idle => 0,
            RunState::Running => 1,
        }
    }

    /// Has `key` been injected?
    pub fn is_injected(&self, key: MsgKey) -> (r: bool)
        ensures
            r == self.injected_keys().contains(key),
    {
        let mut i: usize = 0;
        while i < self.injected.len()
            invariant
                i <= self.injected@.len(),
                forall|j: int| 0 <= j < i ==> self.injected@[j] != key,
            decreases self.injected@.len() - i,
        {
            if self.injected[i] == key {
                assert(self.injected@.contains(key));
                return true;
            }
            i = i + 1;
        }
        false
    }

    /// The delivery ledger of the run.
    pub fn ledger(&self) -> (l: &DeliveryLedger)
        ensures
            *l == self.run_ledger(),
    {
        &self.ledger
    }

    /// The class hash naming this sentant.
    pub fn class_hash(&self) -> (h: u32)
        ensures
            h == str_hash("ai.reality2.composer.sentant.test-coordinator"),
    {
        fnv1a_32("ai.reality2.composer.sentant.test-coordinator")
    }

    /// The sentant's name.
    pub fn name(&self) -> (s: &'static str)
        ensures
            s@ == "TestCoordinator"@,
    {
        "TestCoordinator"
    }

    /// The events this sentant consumes: inject, report, assert.
    pub fn subscriptions(&self) -> (v: Vec<u32>)
        ensures
            v@ == seq![
                str_hash("r2.tn.inject"),
                str_hash("r2.tn.report"),
                str_hash("r2.tn.assert"),
            ],
    {
        proof {
            use_type_invariant(self);
        }
        let mut v: Vec<u32> = Vec::new();
        v.push(self.h_inject);
        v.push(self.h_report);
        v.push(self.h_assert);
        v
    }

    fn handle_inject(&mut self, p: &TcPayload) -> (out: Option<(u32, TcEmit)>)
        ensures
            inject_effect(*old(self), *final(self), *p, out),
    {
        proof {
            use_type_invariant(&*self);
        }
        match (p.origin, p.msg_id) {
            (Some(origin), Some(msg_id)) => {
                let key = MsgKey::new(origin as u32, msg_id as u32);
                let present = self.is_injected(key);
                let ghost before = self.injected@;
                if !present {
                    let mut ks: Vec<MsgKey> = Vec::new();
                    std::mem::swap(&mut ks, &mut self.injected);
                    ks.push(key);
                    proof {
                        assert forall|i: int, j: int| 0 <= i < j < ks@.len() implies ks@[i] != ks@[j] by {
                            if j == ks@.len() - 1 {
                                assert(old(self).injected@.contains(ks@[i]));
                            }
                        }
                    }
                    self.injected = ks;
                }
                self.state = RunState::Running;
                proof {
                    if present {
                        assert(self.injected@ == before);
                        assert(before.to_set().insert(key) =~= before.to_set());
                    } else {
                        assert(self.injected@ == before.push(key));
                        before.lemma_push_to_set_commute(key);
                    }
                }
                Some((self.h_injected, TcEmit::Injected { origin, msg_id }))
            },
            _ => None,
        }
    }

    fn handle_report(&mut self, p: &TcPayload) -> (out: Option<(u32, TcEmit)>)
        requires
            report_allowed(*old(self), *p),
        ensures
            report_effect(*old(self), *final(self), *p, out),
    {
        proof {
            use_type_invariant(&*self);
        }
        match (&p.node, p.origin, p.msg_id) {
            (Some(node), Some(origin), Some(msg_id)) => {
                let key = MsgKey::new(origin as u32, msg_id as u32);
                let mut led = DeliveryLedger::new();
                std::mem::swap(&mut led, &mut self.ledger);
                led.record(key, node.as_str());
                let copies = led.copy_count(key, node.as_str());
                self.ledger = led;
                Some(
                    (
                        self.h_delivered,
                        TcEmit::Delivered { node: node.as_str().to_owned(), origin, msg_id, copies },
                    ),
                )
            },
            _ => None,
        }
    }

    fn handle_assert(&self, p: &TcPayload) -> (out: Option<(u32, TcEmit)>)
        ensures
            assert_effect(*self, *p, out),
    {
        proof {
            use_type_invariant(self);
        }
        proof {
            reveal_strlit("");
        }
        let kind: &str = match &p.kind {
            Some(k) => k.as_str(),
            None => "",
        };
        let origin: u32 = match p.origin {
            Some(o) => o as u32,
            None => 0,
        };
        let msg_id: u32 = match p.msg_id {
            Some(m) => m as u32,
            None => 0,
        };
        let key = MsgKey::new(origin, msg_id);
        let node: &str = match &p.node {
            Some(n) => n.as_str(),
            None => "",
        };
        let mut dests: Vec<&str> = Vec::new();
        let mut i: usize = 0;
        while i < p.dests.len()
            invariant
                i <= p.dests@.len(),
                dests@.len() == i,
                forall|j: int| 0 <= j < i ==> (#[trigger] dests@[j])@ == p.dests@[j]@,
            decreases p.dests@.len() - i,
        {
            dests.push(p.dests[i].as_str());
            i = i + 1;
        }
        assert(views(dests@) =~= string_views(p.dests@));
        let max: u32 = match p.max {
            Some(m) => m as u32,
            None => 1,
        };
        let result = run_assert(&self.ledger, kind, key, node, dests.as_slice(), max);
        let (ok, detail) = match result {
            Ok(()) => (true, String::new()),
            Err(f) => (false, f.detail),
        };
        assert(kind@ == text_or_empty(p.kind));
        assert(node@ == text_or_empty(p.node));
        assert(origin == (match p.origin { Some(o) => o, None => 0 }) as u32);
        assert(max == (match p.max { Some(m) => m, None => 1 }) as u32);
        assert(ok == result is Ok);
        assert(detail@ == result_detail(result));
        assert(verdict(self.ledger, kind@, key, node@, string_views(p.dests@), max, ok, detail@));
        Some((self.h_result, TcEmit::Verdict { kind: kind.to_owned(), origin, msg_id, ok, detail }))
    }

    /// Handles one inbound event, returning the event to emit (with its
    /// hash), if any: an injection starts tracking its key, a report is
    /// counted in the ledger, an assert is adjudicated over the ledger.
    /// Any other event is ignored.
    pub fn handle_event(&mut self, hash: u32, p: &TcPayload) -> (out: Option<(u32, TcEmit)>)
        requires
            hash == str_hash("r2.tn.report") ==> report_allowed(*old(self), *p),
        ensures
            hash == str_hash("r2.tn.inject") ==> inject_effect(*old(self), *final(self), *p, out),
            hash == str_hash("r2.tn.report") ==> report_effect(*old(self), *final(self), *p, out),
            hash == str_hash("r2.tn.assert") ==> *final(self) == *old(self) && assert_effect(*old(self), *p, out),
            if hash == str_hash("r2.tn.inject") {
                inject_effect(*old(self), *final(self), *p, out)
            } else if hash == str_hash("r2.tn.report") {
                report_effect(*old(self), *final(self), *p, out)
            } else if hash == str_hash("r2.tn.assert") {
                *final(self) == *old(self) && assert_effect(*old(self), *p, out)
            } else {
                *final(self) == *old(self) && out is None
            },
    {
        proof {
            use_type_invariant(&*self);
            lemma_tn_hashes();
        }
        if hash == self.h_inject {
            self.handle_inject(p)
        } else if hash == self.h_report {
            self.handle_report(p)
        } else if hash == self.h_assert {
            self.handle_assert(p)
        } else {
            None
        }
    }
}

/// An injection with both `origin` and `msg_id` starts the run, adds its
/// key to the injected set and is echoed as `r2.tn.injected`; one missing
/// either changes nothing and emits nothing.
pub open spec fn inject_effect(
    old: TestCoordinator,
    new: TestCoordinator,
    p: TcPayload,
    out: Option<(u32, TcEmit)>,
) -> bool {
    if p.origin is Some && p.msg_id is Some {
        &&& new.running()
        &&& new.injected_keys() == old.injected_keys().insert(key_of(p.origin->0, p.msg_id->0))
        &&& new.run_ledger() == old.run_ledger()
        &&& out matches Some((h, TcEmit::Injected { origin, msg_id }))
        &&& h == str_hash("r2.tn.injected")
        &&& origin == p.origin->0
        &&& msg_id == p.msg_id->0
    } else {
        new == old && out is None
    }
}

/// A report can be counted without its copy count overflowing.
pub open spec fn report_allowed(c: TestCoordinator, p: TcPayload) -> bool {
    p.node is Some && p.origin is Some && p.msg_id is Some ==> c.run_ledger().count(
        key_of(p.origin->0, p.msg_id->0),
        p.node->0@,
    ) < u32::MAX
}

/// A report with `node`, `origin` and `msg_id` adds one copy to that
/// cell of the ledger and is answered by `r2.tn.delivered` with the new
/// count; one missing any of them changes nothing and emits nothing.
pub open spec fn report_effect(
    old: TestCoordinator,
    new: TestCoordinator,
    p: TcPayload,
    out: Option<(u32, TcEmit)>,
) -> bool {
    if p.node is Some && p.origin is Some && p.msg_id is Some {
        let key = key_of(p.origin->0, p.msg_id->0);
        &&& new.running() == old.running()
        &&& new.injected_keys() == old.injected_keys()
        &&& forall|m: MsgKey, n: Seq<char>|
            #[trigger] new.run_ledger().count(m, n) == if m == key && n == p.node->0@ {
                old.run_ledger().count(m, n) + 1
            } else {
                old.run_ledger().count(m, n)
            }
        &&& out matches Some((h, TcEmit::Delivered { node, origin, msg_id, copies }))
        &&& h == str_hash("r2.tn.delivered")
        &&& node@ == p.node->0@
        &&& origin == p.origin->0
        &&& msg_id == p.msg_id->0
        &&& copies == new.run_ledger().count(key, p.node->0@)
    } else {
        new == old && out is None
    }
}

/// An assert request is answered by `r2.tn.result` carrying its kind,
/// the truncated key (absent fields read as zero) and the verdict over
/// the ledger; `max` defaults to one.
pub open spec fn assert_effect(c: TestCoordinator, p: TcPayload, out: Option<(u32, TcEmit)>) -> bool {
    &&& out matches Some((h, TcEmit::Verdict { kind, origin, msg_id, ok, detail }))
    &&& h == str_hash("r2.tn.result")
    &&& kind@ == text_or_empty(p.kind)
    &&& origin == (match p.origin {
        Some(o) => o,
        None => 0,
    }) as u32
    &&& msg_id == (match p.msg_id {
        Some(m) => m,
        None => 0,
    }) as u32
    &&& verdict(
        c.run_ledger(),
        text_or_empty(p.kind),
        MsgKey { origin, msg_id },
        text_or_empty(p.node),
        string_views(p.dests@),
        (match p.max {
            Some(m) => m,
            None => 1,
        }) as u32,
        ok,
        detail@,
    )
}

/// The FNV-1a folds of the test-network event names, byte by byte.
proof fn lemma_tn_chains()
    by (bit_vector)
    ensures
        fnv_step(fnv_step(fnv_step(fnv_step(fnv_step(fnv_step(fnv_step(fnv_step(fnv_step(fnv_step(fnv_step(fnv_step(FNV_OFFSET_BASIS, 114u8), 50u8), 46u8), 116u8), 110u8), 46u8), 105u8), 110u8), 106u8), 101u8), 99u8), 116u8) == 0xdbc6fa32u32,
        fnv_step(fnv_step(fnv_step(fnv_step(fnv_step(fnv_step(fnv_step(fnv_step(fnv_step(fnv_step(fnv_step(fnv_step(FNV_OFFSET_BASIS, 114u8), 50u8), 46u8), 116u8), 110u8), 46u8), 114u8), 101u8), 112u8), 111u8), 114u8), 116u8) == 0x43c71509u32,
        fnv_step(fnv_step(fnv_step(fnv_step(fnv_step(fnv_step(fnv_step(fnv_step(fnv_step(fnv_step(fnv_step(fnv_step(FNV_OFFSET_BASIS, 114u8), 50u8), 46u8), 116u8), 110u8), 46u8), 97u8), 115u8), 115u8), 101u8), 114u8), 116u8) == 0xdce0aa49u32,
{
}

/// The hashes of the test-network event names; they are pairwise
/// different, so each event reaches its own handler.
pub proof fn lemma_tn_hashes()
    ensures
        str_hash("r2.tn.inject") == 0xdbc6fa32u32,
        str_hash("r2.tn.report") == 0x43c71509u32,
        str_hash("r2.tn.assert") == 0xdce0aa49u32,
{
    assert(str_hash("r2.tn.inject") == 0xdbc6fa32u32) by {
        reveal_strlit("r2.tn.inject");
        assert(vstd::utf8::is_ascii_chars("r2.tn.inject"@));
        lemma_ascii_hash("r2.tn.inject"@);
        reveal_with_fuel(fnv_prefix, 13);
        lemma_tn_chains();
    }
    assert(str_hash("r2.tn.report") == 0x43c71509u32) by {
        reveal_strlit("r2.tn.report");
        assert(vstd::utf8::is_ascii_chars("r2.tn.report"@));
        lemma_ascii_hash("r2.tn.report"@);
        reveal_with_fuel(fnv_prefix, 13);
        lemma_tn_chains();
    }
    assert(str_hash("r2.tn.assert") == 0xdce0aa49u32) by {
        reveal_strlit("r2.tn.assert");
        assert(vstd::utf8::is_ascii_chars("r2.tn.assert"@));
        lemma_ascii_hash("r2.tn.assert"@);
        reveal_with_fuel(fnv_prefix, 13);
        lemma_tn_chains();
    }
}

} // verus!

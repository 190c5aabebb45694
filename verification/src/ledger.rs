//! The adjudication core of a transient-networking test run: a ledger of
//! what each node reported receiving, keyed by `(origin, msg_id)`, and the
//! assert set evaluated over it. A failed assert is returned as a
//! structured [`AssertFail`], never panicked.

use vstd::prelude::*;

use crate::text::{
    chars_of, dec_spec, lemma_lex_asymmetric, lemma_lex_irreflexive, lemma_lex_total,
    lemma_lex_transitive, lex_lt, push_bool, push_dec, push_str, str_eq, str_lt,
    string_from_chars, bool_text,
};

verus! {

/// A tracked frame, keyed by its originator and message id.
#[derive(Debug, Clone, Copy, PartialEq, Eq, PartialOrd, Ord, Structural)]
pub struct MsgKey {
    /// Originating node id (not the immediate hop).
    pub origin: u32,
    /// Per-origin message id.
    pub msg_id: u32,
}

impl MsgKey {
    /// Constructs a key.
    pub fn new(origin: u32, msg_id: u32) -> (k: Self)
        ensures
            k.origin == origin,
            k.msg_id == msg_id,
    {
        MsgKey { origin, msg_id }
    }
}

/// The strict order of ledger keys: by origin, then message id, then node.
pub open spec fn key_lt(m1: MsgKey, n1: Seq<char>, m2: MsgKey, n2: Seq<char>) -> bool {
    ||| m1.origin < m2.origin
    ||| (m1.origin == m2.origin && m1.msg_id < m2.msg_id)
    ||| (m1.origin == m2.origin && m1.msg_id == m2.msg_id && lex_lt(n1, n2))
}

proof fn lemma_key_transitive(
    m1: MsgKey,
    n1: Seq<char>,
    m2: MsgKey,
    n2: Seq<char>,
    m3: MsgKey,
    n3: Seq<char>,
)
    requires
        key_lt(m1, n1, m2, n2),
        key_lt(m2, n2, m3, n3),
    ensures
        key_lt(m1, n1, m3, n3),
{
    if m1 == m2 && m2 == m3 {
        lemma_lex_transitive(n1, n2, n3);
    }
}

proof fn lemma_key_irreflexive(m: MsgKey, n: Seq<char>)
    ensures
        !key_lt(m, n, m, n),
{
    lemma_lex_irreflexive(n);
}

proof fn lemma_key_total(m1: MsgKey, n1: Seq<char>, m2: MsgKey, n2: Seq<char>)
    requires
        !(m1 == m2 && n1 == n2),
    ensures
        key_lt(m1, n1, m2, n2) || key_lt(m2, n2, m1, n1),
{
    if m1 == m2 {
        lemma_lex_total(n1, n2);
    }
}

/// One `(msg, node)` cell of the ledger with its copy count.
#[derive(Debug)]
struct LedgerEntry {
    msg: MsgKey,
    node: String,
    copies: u32,
}

spec fn entry_is(e: LedgerEntry, msg: MsgKey, node: Seq<char>) -> bool {
    e.msg == msg && e.node@ == node
}

spec fn entries_sorted(s: Seq<LedgerEntry>) -> bool {
    forall|i: int, j: int|
        0 <= i < j < s.len() ==> key_lt(
            #[trigger] s[i].msg,
            s[i].node@,
            #[trigger] s[j].msg,
            s[j].node@,
        )
}

spec fn entries_count(s: Seq<LedgerEntry>, msg: MsgKey, node: Seq<char>) -> nat {
    if exists|i: int| 0 <= i < s.len() && entry_is(#[trigger] s[i], msg, node) {
        s[choose|i: int| 0 <= i < s.len() && entry_is(#[trigger] s[i], msg, node)].copies as nat
    } else {
        0
    }
}

proof fn lemma_count_at(s: Seq<LedgerEntry>, i: int, msg: MsgKey, node: Seq<char>)
    requires
        entries_sorted(s),
        0 <= i < s.len(),
        entry_is(s[i], msg, node),
    ensures
        entries_count(s, msg, node) == s[i].copies,
{
    let k = choose|k: int| 0 <= k < s.len() && entry_is(#[trigger] s[k], msg, node);
    if k < i {
        assert(key_lt(s[k].msg, s[k].node@, s[i].msg, s[i].node@));
        lemma_key_irreflexive(msg, node);
    } else if k > i {
        assert(key_lt(s[i].msg, s[i].node@, s[k].msg, s[k].node@));
        lemma_key_irreflexive(msg, node);
    }
}

proof fn lemma_count_absent(s: Seq<LedgerEntry>, msg: MsgKey, node: Seq<char>)
    requires
        forall|i: int| 0 <= i < s.len() ==> !entry_is(#[trigger] s[i], msg, node),
    ensures
        entries_count(s, msg, node) == 0,
{
}

/// What every node reported receiving: the copy count of each
/// `(msg, node)` pair. Kept in ascending key order, one cell per pair.
#[derive(Debug)]
pub struct DeliveryLedger {
    entries: Vec<LedgerEntry>,
}

impl DeliveryLedger {
    #[verifier::type_invariant]
    spec fn well_formed(self) -> bool {
        &&& entries_sorted(self.entries@)
        &&& forall|i: int| 0 <= i < self.entries@.len() ==> #[trigger] self.entries@[i].copies >= 1
    }

    /// How many copies of `msg` reached `node`.
    pub closed spec fn count(self, msg: MsgKey, node: Seq<char>) -> nat {
        entries_count(self.entries@, msg, node)
    }

    /// New empty ledger.
    pub fn new() -> (l: Self)
        ensures
            forall|m: MsgKey, n: Seq<char>| #[trigger] l.count(m, n) == 0,
    {
        DeliveryLedger { entries: Vec::new() }
    }

    fn entry_lt(e: &LedgerEntry, msg: MsgKey, node: &str) -> (r: bool)
        ensures
            r == key_lt(e.msg, e.node@, msg, node@),
    {
        e.msg.origin < msg.origin || (e.msg.origin == msg.origin && e.msg.msg_id < msg.msg_id) || (
        e.msg.origin == msg.origin && e.msg.msg_id == msg.msg_id && str_lt(e.node.as_str(), node))
    }

    /// The first position whose key is not below `(msg, node)`.
    fn position(&self, msg: MsgKey, node: &str) -> (p: usize)
        ensures
            p <= self.entries@.len(),
            forall|i: int|
                0 <= i < p ==> key_lt(
                    #[trigger] self.entries@[i].msg,
                    self.entries@[i].node@,
                    msg,
                    node@,
                ),
            p < self.entries@.len() ==> !key_lt(
                self.entries@[p as int].msg,
                self.entries@[p as int].node@,
                msg,
                node@,
            ),
    {
        let mut p: usize = 0;
        while p < self.entries.len()
            invariant
                p <= self.entries@.len(),
                forall|i: int|
                    0 <= i < p ==> key_lt(
                        #[trigger] self.entries@[i].msg,
                        self.entries@[i].node@,
                        msg,
                        node@,
                    ),
            decreases self.entries@.len() - p,
        {
            if !Self::entry_lt(&self.entries[p], msg, node) {
                return p;
            }
            p = p + 1;
        }
        p
    }

    /// Records that `node` received `msg` once more.
    pub fn record(&mut self, msg: MsgKey, node: &str)
        requires
            old(self).count(msg, node@) < u32::MAX,
        ensures
            forall|m: MsgKey, n: Seq<char>|
                #[trigger] final(self).count(m, n) == if m == msg && n == node@ {
                    old(self).count(m, n) + 1
                } else {
                    old(self).count(m, n)
                },
    {
        proof {
            use_type_invariant(&*self);
        }
        let ghost old_e = self.entries@;
        let p = self.position(msg, node);
        let found = p < self.entries.len() && self.entries[p].msg == msg && str_eq(
            self.entries[p].node.as_str(),
            node,
        );
        if found {
            proof {
                lemma_count_at(old_e, p as int, msg, node@);
            }
            let c = self.entries[p].copies;
            let e = LedgerEntry { msg, node: node.to_owned(), copies: c + 1 };
            let ghost new_e = old_e.update(p as int, e);
            proof {
                assert forall|i: int, j: int| 0 <= i < j < new_e.len() implies key_lt(
                    #[trigger] new_e[i].msg,
                    new_e[i].node@,
                    #[trigger] new_e[j].msg,
                    new_e[j].node@,
                ) by {
                    assert(key_lt(old_e[i].msg, old_e[i].node@, old_e[j].msg, old_e[j].node@));
                }
            }
            let mut es: Vec<LedgerEntry> = Vec::new();
            std::mem::swap(&mut es, &mut self.entries);
            es.set(p, e);
            self.entries = es;
            proof {
                assert(self.entries@ == new_e);
                assert forall|m: MsgKey, n: Seq<char>|
                    #[trigger] entries_count(new_e, m, n) == if m == msg && n == node@ {
                        entries_count(old_e, m, n) + 1
                    } else {
                        entries_count(old_e, m, n)
                    } by {
                    if m == msg && n == node@ {
                        lemma_count_at(new_e, p as int, m, n);
                    } else if exists|i: int| 0 <= i < old_e.len() && entry_is(#[trigger] old_e[i], m, n) {
                        let i = choose|i: int| 0 <= i < old_e.len() && entry_is(#[trigger] old_e[i], m, n);
                        lemma_count_at(old_e, i, m, n);
                        assert(new_e[i] == old_e[i]);
                        lemma_count_at(new_e, i, m, n);
                    } else {
                        assert forall|i: int| 0 <= i < new_e.len() implies !entry_is(#[trigger] new_e[i], m, n) by {
                            if i != p {
                                assert(new_e[i] == old_e[i]);
                            }
                        }
                        lemma_count_absent(new_e, m, n);
                    }
                }
            }
        } else {
            let e = LedgerEntry { msg, node: node.to_owned(), copies: 1 };
            let ghost new_e = old_e.insert(p as int, e);
            proof {
                assert forall|j: int| p <= j < old_e.len() implies key_lt(
                    msg,
                    node@,
                    #[trigger] old_e[j].msg,
                    old_e[j].node@,
                ) by {
                    lemma_key_total(old_e[p as int].msg, old_e[p as int].node@, msg, node@);
                    if j > p {
                        assert(key_lt(old_e[p as int].msg, old_e[p as int].node@, old_e[j].msg, old_e[j].node@));
                        lemma_key_transitive(msg, node@, old_e[p as int].msg, old_e[p as int].node@, old_e[j].msg, old_e[j].node@);
                    }
                }
                assert forall|i: int, j: int| 0 <= i < j < new_e.len() implies key_lt(
                    #[trigger] new_e[i].msg,
                    new_e[i].node@,
                    #[trigger] new_e[j].msg,
                    new_e[j].node@,
                ) by {
                    if j < p {
                        assert(key_lt(old_e[i].msg, old_e[i].node@, old_e[j].msg, old_e[j].node@));
                    } else if j == p {
                        assert(key_lt(old_e[i].msg, old_e[i].node@, msg, node@));
                    } else if i < p {
                        assert(key_lt(old_e[i].msg, old_e[i].node@, msg, node@));
                        assert(key_lt(msg, node@, old_e[j - 1].msg, old_e[j - 1].node@));
                        lemma_key_transitive(old_e[i].msg, old_e[i].node@, msg, node@, old_e[j - 1].msg, old_e[j - 1].node@);
                    } else if i == p {
                        assert(key_lt(msg, node@, old_e[j - 1].msg, old_e[j - 1].node@));
                    } else {
                        assert(key_lt(old_e[i - 1].msg, old_e[i - 1].node@, old_e[j - 1].msg, old_e[j - 1].node@));
                    }
                }
                assert forall|i: int| 0 <= i < old_e.len() implies !entry_is(#[trigger] old_e[i], msg, node@) by {
                    lemma_key_irreflexive(msg, node@);
                    if i < p {
                        assert(key_lt(old_e[i].msg, old_e[i].node@, msg, node@));
                    } else {
                        assert(key_lt(msg, node@, old_e[i].msg, old_e[i].node@));
                    }
                }
                lemma_count_absent(old_e, msg, node@);
            }
            let mut es: Vec<LedgerEntry> = Vec::new();
            std::mem::swap(&mut es, &mut self.entries);
            es.insert(p, e);
            self.entries = es;
            proof {
                assert(self.entries@ == new_e);
                assert forall|m: MsgKey, n: Seq<char>|
                    #[trigger] entries_count(new_e, m, n) == if m == msg && n == node@ {
                        entries_count(old_e, m, n) + 1
                    } else {
                        entries_count(old_e, m, n)
                    } by {
                    if m == msg && n == node@ {
                        lemma_count_at(new_e, p as int, m, n);
                    } else if exists|i: int| 0 <= i < old_e.len() && entry_is(#[trigger] old_e[i], m, n) {
                        let i = choose|i: int| 0 <= i < old_e.len() && entry_is(#[trigger] old_e[i], m, n);
                        lemma_count_at(old_e, i, m, n);
                        if i < p {
                            assert(new_e[i] == old_e[i]);
                            lemma_count_at(new_e, i, m, n);
                        } else {
                            assert(new_e[i + 1] == old_e[i]);
                            lemma_count_at(new_e, i + 1, m, n);
                        }
                    } else {
                        assert forall|i: int| 0 <= i < new_e.len() implies !entry_is(#[trigger] new_e[i], m, n) by {
                            if i < p {
                                assert(new_e[i] == old_e[i]);
                            } else if i > p {
                                assert(new_e[i] == old_e[i - 1]);
                            }
                        }
                        lemma_count_absent(new_e, m, n);
                    }
                }
            }
        }
    }

    /// How many copies of `msg` reached `node`.
    pub fn copy_count(&self, msg: MsgKey, node: &str) -> (c: u32)
        ensures
            c == self.count(msg, node@),
    {
        proof {
            use_type_invariant(self);
        }
        let p = self.position(msg, node);
        if p < self.entries.len() && self.entries[p].msg == msg && str_eq(
            self.entries[p].node.as_str(),
            node,
        ) {
            proof {
                lemma_count_at(self.entries@, p as int, msg, node@);
            }
            self.entries[p].copies
        } else {
            proof {
                assert forall|i: int| 0 <= i < self.entries@.len() implies !entry_is(
                    #[trigger] self.entries@[i],
                    msg,
                    node@,
                ) by {
                    lemma_key_irreflexive(msg, node@);
                    if i > p {
                        assert(key_lt(
                            self.entries@[p as int].msg,
                            self.entries@[p as int].node@,
                            self.entries@[i].msg,
                            self.entries@[i].node@,
                        ));
                        if entry_is(self.entries@[i], msg, node@) {
                            lemma_key_total(self.entries@[p as int].msg, self.entries@[p as int].node@, msg, node@);
                            lemma_key_transitive(msg, node@, self.entries@[p as int].msg, self.entries@[p as int].node@, msg, node@);
                        }
                    }
                }
            }
            0
        }
    }

    /// Did `node` receive `msg` at least once?
    pub fn delivered_by(&self, msg: MsgKey, node: &str) -> (r: bool)
        ensures
            r == (self.count(msg, node@) >= 1),
    {
        self.copy_count(msg, node) >= 1
    }

    /// The nodes that received `msg`, each once, in ascending order.
    pub fn nodes_with(&self, msg: MsgKey) -> (r: Vec<String>)
        ensures
            forall|a: int, b: int| 0 <= a < b < r@.len() ==> lex_lt(#[trigger] r@[a]@, #[trigger] r@[b]@),
            forall|n: Seq<char>|
                (exists|a: int| 0 <= a < r@.len() && #[trigger] r@[a]@ == n) <==> #[trigger] self.count(msg, n) >= 1,
    {
        proof {
            use_type_invariant(self);
        }
        let ghost s = self.entries@;
        let mut r: Vec<String> = Vec::new();
        let mut i: usize = 0;
        while i < self.entries.len()
            invariant
                s == self.entries@,
                entries_sorted(s),
                forall|k: int| 0 <= k < s.len() ==> #[trigger] s[k].copies >= 1,
                i <= s.len(),
                forall|a: int, b: int| 0 <= a < b < r@.len() ==> lex_lt(#[trigger] r@[a]@, #[trigger] r@[b]@),
                forall|a: int| #![trigger r@[a]] 0 <= a < r@.len() ==> exists|k: int| 0 <= k < i && entry_is(#[trigger] s[k], msg, r@[a]@),
                forall|k: int| 0 <= k < i && (#[trigger] s[k]).msg == msg ==> exists|a: int| 0 <= a < r@.len() && r@[a]@ == s[k].node@,
            decreases s.len() - i,
        {
            if self.entries[i].msg == msg {
                let n = self.entries[i].node.clone();
                proof {
                    assert forall|a: int| 0 <= a < r@.len() implies lex_lt(r@[a]@, n@) by {
                        let k = choose|k: int| 0 <= k < i && entry_is(#[trigger] s[k], msg, r@[a]@);
                        assert(key_lt(s[k].msg, s[k].node@, s[i as int].msg, s[i as int].node@));
                    }
                }
                let ghost old_r = r@;
                r.push(n);
                proof {
                    assert forall|a: int| #![trigger r@[a]] 0 <= a < r@.len() implies exists|k: int| 0 <= k < i + 1 && entry_is(#[trigger] s[k], msg, r@[a]@) by {
                        if a < old_r.len() {
                            assert(r@[a] == old_r[a]);
                            let k = choose|k: int| 0 <= k < i && entry_is(#[trigger] s[k], msg, old_r[a]@);
                            assert(entry_is(s[k], msg, r@[a]@));
                        } else {
                            assert(entry_is(s[i as int], msg, r@[a]@));
                        }
                    }
                    assert forall|k: int| 0 <= k < i + 1 && (#[trigger] s[k]).msg == msg implies exists|a: int| 0 <= a < r@.len() && r@[a]@ == s[k].node@ by {
                        if k < i {
                            let a = choose|a: int| 0 <= a < old_r.len() && old_r[a]@ == s[k].node@;
                            assert(r@[a] == old_r[a]);
                        } else {
                            assert(r@[old_r.len() as int]@ == s[k].node@);
                        }
                    }
                }
            }
            i = i + 1;
        }
        proof {
            assert forall|n: Seq<char>|
                (exists|a: int| 0 <= a < r@.len() && #[trigger] r@[a]@ == n) <==> #[trigger] entries_count(s, msg, n) >= 1 by {
                if exists|a: int| 0 <= a < r@.len() && #[trigger] r@[a]@ == n {
                    let a = choose|a: int| 0 <= a < r@.len() && #[trigger] r@[a]@ == n;
                    let k = choose|k: int| 0 <= k < i && entry_is(#[trigger] s[k], msg, r@[a]@);
                    lemma_count_at(s, k, msg, n);
                }
                if entries_count(s, msg, n) >= 1 {
                    let k = choose|k: int| 0 <= k < s.len() && entry_is(#[trigger] s[k], msg, n);
                    assert(s[k].msg == msg);
                }
            }
        }
        r
    }
}

impl Default for DeliveryLedger {
    fn default() -> (l: Self)
        ensures
            forall|m: MsgKey, n: Seq<char>| #[trigger] l.count(m, n) == 0,
    {
        DeliveryLedger::new()
    }
}

/// A failed expectation: which assert failed and what was observed.
#[derive(Debug, Clone, PartialEq, Eq)]
pub struct AssertFail {
    /// Which assert failed (`exactly_once`, `no_drop`, ...).
    pub which: &'static str,
    /// What was expected against what was observed.
    pub detail: String,
}

/// `Ok(())` if the assert passed; the structured failure otherwise.
pub type AssertResult = Result<(), AssertFail>;

fn fail(which: &'static str, detail: String) -> (r: AssertResult)
    ensures
        r == Err::<(), AssertFail>(AssertFail { which, detail }),
{
    Err(AssertFail { which, detail })
}

/// `{msg:?}`: the debug rendering of a key.
pub open spec fn key_text(k: MsgKey) -> Seq<char> {
    "MsgKey { origin: "@ + dec_spec(k.origin as nat) + ", msg_id: "@ + dec_spec(k.msg_id as nat)
        + " }"@
}

/// `"{msg:?} reached {node} {n}× ({bound})"`.
pub open spec fn reached_text(k: MsgKey, node: Seq<char>, n: nat, bound: Seq<char>) -> Seq<char> {
    key_text(k) + " reached "@ + node + " "@ + dec_spec(n) + "× ("@ + bound + ")"@
}

/// `"{msg:?} never reached {node}"`.
pub open spec fn never_text(k: MsgKey, node: Seq<char>) -> Seq<char> {
    key_text(k) + " never reached "@ + node
}

/// `"{msg:?} at {node}: post-heal delivered={a}, baseline={b}"`.
pub open spec fn mismatch_text(k: MsgKey, node: Seq<char>, a: bool, b: bool) -> Seq<char> {
    key_text(k) + " at "@ + node + ": post-heal delivered="@ + bool_text(a) + ", baseline="@
        + bool_text(b)
}

fn push_key(out: &mut Vec<char>, k: MsgKey)
    ensures
        final(out)@ == old(out)@ + key_text(k),
{
    push_str(out, "MsgKey { origin: ");
    push_dec(out, k.origin as u64);
    push_str(out, ", msg_id: ");
    push_dec(out, k.msg_id as u64);
    push_str(out, " }");
    assert(out@ =~= old(out)@ + key_text(k));
}

fn reached_detail(k: MsgKey, node: &str, n: u32, bound: &Vec<char>) -> (s: String)
    ensures
        s@ == reached_text(k, node@, n as nat, bound@),
{
    let mut v: Vec<char> = Vec::new();
    push_key(&mut v, k);
    push_str(&mut v, " reached ");
    push_str(&mut v, node);
    push_str(&mut v, " ");
    push_dec(&mut v, n as u64);
    push_str(&mut v, "× (");
    crate::text::push_all(&mut v, bound);
    push_str(&mut v, ")");
    assert(v@ =~= reached_text(k, node@, n as nat, bound@));
    string_from_chars(&v)
}

fn never_detail(k: MsgKey, node: &str) -> (s: String)
    ensures
        s@ == never_text(k, node@),
{
    let mut v: Vec<char> = Vec::new();
    push_key(&mut v, k);
    push_str(&mut v, " never reached ");
    push_str(&mut v, node);
    assert(v@ =~= never_text(k, node@));
    string_from_chars(&v)
}

/// `msg` reached `dest` exactly once.
pub open spec fn exactly_once_holds(led: DeliveryLedger, msg: MsgKey, dest: Seq<char>) -> bool {
    led.count(msg, dest) == 1
}

/// No node received `msg` more than once.
pub open spec fn no_duplicate_holds(led: DeliveryLedger, msg: MsgKey) -> bool {
    forall|n: Seq<char>| #[trigger] led.count(msg, n) <= 1
}

/// `node` is the least node, in `String` order, that received `msg` twice or more.
pub open spec fn least_duplicate(led: DeliveryLedger, msg: MsgKey, node: Seq<char>) -> bool {
    &&& led.count(msg, node) > 1
    &&& forall|n: Seq<char>| #[trigger] led.count(msg, n) > 1 ==> !lex_lt(n, node)
}

/// The failure `no_duplicate` reports for `msg`: the least duplicated node.
pub open spec fn duplicate_failure(led: DeliveryLedger, msg: MsgKey, f: AssertFail) -> bool {
    &&& f.which@ == "no_duplicate"@
    &&& exists|n: Seq<char>|
        least_duplicate(led, msg, n) && f.detail@ == reached_text(
            msg,
            n,
            led.count(msg, n),
            "want ≤1"@,
        )
}

/// The character views of a list of names.
pub open spec fn views(ds: Seq<&str>) -> Seq<Seq<char>> {
    ds.map_values(|d: &str| d@)
}

/// Every node of `dests` received `msg` at least once.
pub open spec fn no_drop_holds(led: DeliveryLedger, msg: MsgKey, dests: Seq<Seq<char>>) -> bool {
    forall|i: int| 0 <= i < dests.len() ==> #[trigger] led.count(msg, dests[i]) >= 1
}

/// `i` is the first destination that `msg` never reached.
pub open spec fn first_dropped(led: DeliveryLedger, msg: MsgKey, dests: Seq<Seq<char>>, i: int) -> bool {
    &&& 0 <= i < dests.len()
    &&& led.count(msg, dests[i]) == 0
    &&& forall|j: int| 0 <= j < i ==> #[trigger] led.count(msg, dests[j]) >= 1
}

/// Delivered or not, `node` fares the same in both runs.
pub open spec fn same_delivery(
    actual: DeliveryLedger,
    baseline: DeliveryLedger,
    msg: MsgKey,
    node: Seq<char>,
) -> bool {
    (actual.count(msg, node) >= 1) == (baseline.count(msg, node) >= 1)
}

/// `i` is the first destination whose delivery differs between the runs.
pub open spec fn first_mismatch(
    actual: DeliveryLedger,
    baseline: DeliveryLedger,
    msg: MsgKey,
    dests: Seq<Seq<char>>,
    i: int,
) -> bool {
    &&& 0 <= i < dests.len()
    &&& !same_delivery(actual, baseline, msg, dests[i])
    &&& forall|j: int| 0 <= j < i ==> #[trigger] same_delivery(actual, baseline, msg, dests[j])
}

/// Every node of `dests` fares the same in both runs.
pub open spec fn all_same_delivery(
    actual: DeliveryLedger,
    baseline: DeliveryLedger,
    msg: MsgKey,
    dests: Seq<Seq<char>>,
) -> bool {
    forall|i: int| 0 <= i < dests.len() ==> #[trigger] same_delivery(actual, baseline, msg, dests[i])
}

/// `msg` reached `dest` exactly once.
pub fn exactly_once(led: &DeliveryLedger, msg: MsgKey, dest: &str) -> (r: AssertResult)
    ensures
        r is Ok <==> exactly_once_holds(*led, msg, dest@),
        r matches Err(f) ==> f.which@ == "exactly_once"@ && f.detail@ == reached_text(
            msg,
            dest@,
            led.count(msg, dest@),
            "want 1"@,
        ),
{
    let n = led.copy_count(msg, dest);
    if n == 1 {
        Ok(())
    } else {
        fail("exactly_once", reached_detail(msg, dest, n, &chars_of("want 1")))
    }
}

/// `msg` reached `node` at most `max` times.
pub fn copy_count(led: &DeliveryLedger, msg: MsgKey, node: &str, max: u32) -> (r: AssertResult)
    ensures
        r is Ok <==> led.count(msg, node@) <= max,
        r matches Err(f) ==> f.which@ == "copy_count"@ && f.detail@ == reached_text(
            msg,
            node@,
            led.count(msg, node@),
            "max "@ + dec_spec(max as nat),
        ),
{
    let n = led.copy_count(msg, node);
    if n <= max {
        Ok(())
    } else {
        let mut bound: Vec<char> = chars_of("max ");
        push_dec(&mut bound, max as u64);
        fail("copy_count", reached_detail(msg, node, n, &bound))
    }
}

/// No node received `msg` more than once.
pub fn no_duplicate(led: &DeliveryLedger, msg: MsgKey) -> (r: AssertResult)
    ensures
        r is Ok <==> no_duplicate_holds(*led, msg),
        r matches Err(f) ==> duplicate_failure(*led, msg, f),
{
    proof {
        use_type_invariant(led);
    }
    let ghost s = led.entries@;
    let mut i: usize = 0;
    while i < led.entries.len()
        invariant
            s == led.entries@,
            entries_sorted(s),
            i <= s.len(),
            forall|k: int| 0 <= k < i ==> !((#[trigger] s[k]).msg == msg && s[k].copies > 1),
        decreases s.len() - i,
    {
        let e = &led.entries[i];
        if e.msg == msg && e.copies > 1 {
            proof {
                lemma_count_at(s, i as int, msg, e.node@);
                assert forall|n: Seq<char>| #[trigger] led.count(msg, n) > 1 implies !lex_lt(n, e.node@) by {
                    let k = choose|k: int| 0 <= k < s.len() && entry_is(#[trigger] s[k], msg, n);
                    lemma_count_at(s, k, msg, n);
                    if k > i {
                        assert(key_lt(s[i as int].msg, s[i as int].node@, s[k].msg, s[k].node@));
                        lemma_lex_asymmetric(e.node@, n);
                    } else if k == i {
                        lemma_lex_irreflexive(n);
                    }
                }
                assert(led.count(msg, e.node@) > 1);
                assert(least_duplicate(*led, msg, e.node@));
            }
            return fail("no_duplicate", reached_detail(msg, e.node.as_str(), e.copies, &chars_of("want ≤1")));
        }
        i = i + 1;
    }
    proof {
        assert forall|n: Seq<char>| #[trigger] led.count(msg, n) <= 1 by {
            if exists|k: int| 0 <= k < s.len() && entry_is(#[trigger] s[k], msg, n) {
                let k = choose|k: int| 0 <= k < s.len() && entry_is(#[trigger] s[k], msg, n);
                lemma_count_at(s, k, msg, n);
            }
        }
    }
    Ok(())
}

/// Every node of `dests` received `msg` at least once.
pub fn no_drop(led: &DeliveryLedger, msg: MsgKey, dests: &[&str]) -> (r: AssertResult)
    ensures
        r is Ok <==> no_drop_holds(*led, msg, views(dests@)),
        r matches Err(f) ==> f.which@ == "no_drop"@ && exists|i: int|
            first_dropped(*led, msg, views(dests@), i) && f.detail@ == never_text(msg, dests@[i]@),
{
    let mut i: usize = 0;
    while i < dests.len()
        invariant
            i <= dests@.len(),
            forall|j: int| 0 <= j < i ==> #[trigger] led.count(msg, views(dests@)[j]) >= 1,
        decreases dests@.len() - i,
    {
        let d: &str = dests[i];
        if !led.delivered_by(msg, d) {
            assert(first_dropped(*led, msg, views(dests@), i as int));
            return fail("no_drop", never_detail(msg, d));
        }
        i = i + 1;
    }
    Ok(())
}

/// `node` received `msg` at least once.
pub fn delivered_by(led: &DeliveryLedger, msg: MsgKey, node: &str) -> (r: AssertResult)
    ensures
        r is Ok <==> led.count(msg, node@) >= 1,
        r matches Err(f) ==> f.which@ == "delivered_by"@ && f.detail@ == never_text(msg, node@),
{
    if led.delivered_by(msg, node) {
        Ok(())
    } else {
        fail("delivered_by", never_detail(msg, node))
    }
}

/// After a partition and heal, no node saw `msg` twice and every node of
/// `dests` got it exactly when it did in the unpartitioned baseline.
pub fn reconcile_correct_after_heal(
    actual: &DeliveryLedger,
    baseline: &DeliveryLedger,
    msg: MsgKey,
    dests: &[&str],
) -> (r: AssertResult)
    ensures
        r is Ok <==> no_duplicate_holds(*actual, msg) && all_same_delivery(
            *actual,
            *baseline,
            msg,
            views(dests@),
        ),
        r matches Err(f) ==> if !no_duplicate_holds(*actual, msg) {
            duplicate_failure(*actual, msg, f)
        } else {
            f.which@ == "reconcile_correct_after_heal"@ && exists|i: int|
                first_mismatch(*actual, *baseline, msg, views(dests@), i) && f.detail@ == mismatch_text(
                    msg,
                    dests@[i]@,
                    actual.count(msg, dests@[i]@) >= 1,
                    baseline.count(msg, dests@[i]@) >= 1,
                )
        },
{
    let nd = no_duplicate(actual, msg);
    if nd.is_err() {
        return nd;
    }
    let mut i: usize = 0;
    while i < dests.len()
        invariant
            i <= dests@.len(),
            no_duplicate_holds(*actual, msg),
            forall|j: int| 0 <= j < i ==> #[trigger] same_delivery(*actual, *baseline, msg, views(dests@)[j]),
        decreases dests@.len() - i,
    {
        let d: &str = dests[i];
        let a = actual.delivered_by(msg, d);
        let b = baseline.delivered_by(msg, d);
        if a != b {
            let mut v: Vec<char> = Vec::new();
            push_key(&mut v, msg);
            push_str(&mut v, " at ");
            push_str(&mut v, d);
            push_str(&mut v, ": post-heal delivered=");
            push_bool(&mut v, a);
            push_str(&mut v, ", baseline=");
            push_bool(&mut v, b);
            assert(v@ =~= mismatch_text(msg, d@, a, b));
            assert(first_mismatch(*actual, *baseline, msg, views(dests@), i as int));
            return fail("reconcile_correct_after_heal", string_from_chars(&v));
        }
        i = i + 1;
    }
    Ok(())
}

/// Exactly-once delivery is delivery within a bound of one copy.
pub proof fn law_exactly_once_is_delivered_at_most_once(
    led: DeliveryLedger,
    msg: MsgKey,
    dest: Seq<char>,
)
    ensures
        exactly_once_holds(led, msg, dest) <==> (led.count(msg, dest) >= 1 && led.count(msg, dest)
            <= 1),
{
}

/// When no node saw `msg` twice, every node passes the copy bound of one.
pub proof fn law_no_duplicate_bounds_every_node(led: DeliveryLedger, msg: MsgKey, node: Seq<char>)
    requires
        no_duplicate_holds(led, msg),
    ensures
        led.count(msg, node) <= 1,
{
}

/// Nothing dropped and nothing duplicated: every destination got `msg`
/// exactly once.
pub proof fn law_no_drop_and_no_duplicate_give_exactly_once(
    led: DeliveryLedger,
    msg: MsgKey,
    dests: Seq<Seq<char>>,
)
    requires
        no_drop_holds(led, msg, dests),
        no_duplicate_holds(led, msg),
    ensures
        forall|i: int| 0 <= i < dests.len() ==> exactly_once_holds(led, msg, #[trigger] dests[i]),
{
    assert forall|i: int| 0 <= i < dests.len() implies exactly_once_holds(led, msg, #[trigger] dests[i]) by {
        assert(led.count(msg, dests[i]) >= 1);
        assert(led.count(msg, dests[i]) <= 1);
    }
}

/// A run always matches itself as a baseline, so reconciling a ledger
/// with itself comes down to the absence of duplicates.
pub proof fn law_reconcile_with_itself(led: DeliveryLedger, msg: MsgKey, dests: Seq<Seq<char>>)
    ensures
        all_same_delivery(led, led, msg, dests),
{
}

} // verus!

//! Apiary state: the `apiary.toml` description of an apiary (header,
//! trust group, role ensembles) turned into the structured state the
//! canvas renders. A role's targets come either from explicit target
//! blocks or from a `carriers` shorthand, one target per carrier, with
//! the target type inferred from the host slug.

use vstd::prelude::*;

use std::collections::BTreeMap;

use crate::fnv::{class_hash_hex, fnv_spec, hex_u32_spec};
use crate::text::{chars_of, lemma_lex_asymmetric, lemma_lex_total, lemma_lex_transitive, lex_lt, push_str, str_lt, string_from_chars, str_eq};

verus! {

/// The trust-group part of the rendered state.
#[derive(Debug, Clone)]
pub struct ApiaryTg {
    pub keyholder_fp: String,
}

/// One deployable target of a role.
#[derive(Debug, Clone)]
pub struct Target {
    /// Stable per-target id, `<role>:<host>`.
    pub id: String,
    pub target_type: String,
    pub host: String,
    /// Capability → plugin overrides.
    pub overrides: BTreeMap<String, String>,
    pub co_located_with: Option<String>,
}

/// A role, the ensemble that fills it, and its targets.
#[derive(Debug, Clone)]
pub struct RoleEnsemble {
    pub role: String,
    pub ensemble: String,
    pub targets: Vec<Target>,
}

/// The state the canvas renders.
#[derive(Debug, Clone)]
pub struct ApiaryState {
    pub name: String,
    pub description: String,
    pub class: String,
    /// `0x` and eight lowercase hex digits of the class hash.
    pub class_hash: String,
    pub version: String,
    pub tg: ApiaryTg,
    pub roles: Vec<RoleEnsemble>,
}

/// A per-apiary summary for the picker of known apiaries.
#[derive(Debug, Clone)]
pub struct ApiarySummary {
    pub name: String,
    pub class: String,
    pub class_hash: String,
    pub version: String,
    pub description: String,
    /// Path on disk.
    pub path: String,
    /// ISO 8601 UTC of the file's modification time; empty if unknown.
    pub last_modified: String,
}

/// `[apiary]` of `apiary.toml`.
#[derive(Debug, Clone)]
pub struct TomlApiaryHeader {
    pub name: String,
    pub description: String,
    pub class: String,
    pub version: String,
}

/// `[tg]` of `apiary.toml`.
#[derive(Debug, Clone)]
pub struct TomlApiaryTg {
    pub keyholder_fp: String,
}

/// One explicit `[[role_ensembles.targets]]` block.
#[derive(Debug, Clone)]
pub struct TomlTarget {
    pub target_type: Option<String>,
    pub host: String,
    pub plugin_overrides: BTreeMap<String, String>,
    pub co_located_with: Option<String>,
}

/// One `[[role_ensembles]]` block.
#[derive(Debug, Clone)]
pub struct TomlRoleEnsemble {
    pub role: String,
    pub ensemble: String,
    /// Shorthand: one target per carrier slug.
    pub carriers: Vec<String>,
    /// Full form: each target explicit.
    pub targets: Vec<TomlTarget>,
}

/// The whole of `apiary.toml`.
#[derive(Debug, Clone)]
pub struct TomlApiary {
    pub apiary: TomlApiaryHeader,
    pub tg: Option<TomlApiaryTg>,
    pub role_ensembles: Vec<TomlRoleEnsemble>,
}

/// The target type a host slug implies: micro-controller firmware for
/// `esp32*`, `nrf52*` and `rp2040*`, wasm for `wasm32*`, native otherwise.
pub open spec fn target_type_for(host: Seq<char>) -> Seq<char> {
    if "esp32"@.is_prefix_of(host) || "nrf52"@.is_prefix_of(host) || "rp2040"@.is_prefix_of(host) {
        "mcu-fw"@
    } else if "wasm32"@.is_prefix_of(host) {
        "wasm"@
    } else {
        "native"@
    }
}

/// Infers a target type from a host slug.
pub fn infer_target_type(host: &str) -> (t: String)
    ensures
        t@ == target_type_for(host@),
{
    let h = chars_of(host);
    let s: &str = if crate::text::starts_with(&h, &chars_of("esp32")) || crate::text::starts_with(
        &h,
        &chars_of("nrf52"),
    ) || crate::text::starts_with(&h, &chars_of("rp2040")) {
        "mcu-fw"
    } else if crate::text::starts_with(&h, &chars_of("wasm32")) {
        "wasm"
    } else {
        "native"
    };
    s.to_owned()
}

/// The id of a role's target: `<role>:<host>`.
pub open spec fn target_id(role: Seq<char>, host: Seq<char>) -> Seq<char> {
    role + ":"@ + host
}

fn make_target_id(role: &str, host: &str) -> (s: String)
    ensures
        s@ == target_id(role@, host@),
{
    let mut v: Vec<char> = chars_of(role);
    push_str(&mut v, ":");
    push_str(&mut v, host);
    string_from_chars(&v)
}

/// `out` is the target an explicit block describes for `role`: its type
/// as written, or inferred from the host when absent.
pub open spec fn target_from_block(role: Seq<char>, t: TomlTarget, out: Target) -> bool {
    &&& out.id@ == target_id(role, t.host@)
    &&& out.target_type@ == match t.target_type {
        Some(tt) => tt@,
        None => target_type_for(t.host@),
    }
    &&& out.host@ == t.host@
    &&& out.overrides == t.plugin_overrides
    &&& out.co_located_with == t.co_located_with
}

/// `out` is the target a carrier slug stands for in `role`.
pub open spec fn target_from_carrier(role: Seq<char>, carrier: Seq<char>, out: Target) -> bool {
    &&& out.id@ == target_id(role, carrier)
    &&& out.target_type@ == target_type_for(carrier)
    &&& out.host@ == carrier
    &&& out.overrides@ == Map::<String, String>::empty()
    &&& out.co_located_with is None
}

/// `out` is the role `r` describes: explicit targets when there are any
/// (the shorthand is then ignored), one target per carrier otherwise.
pub open spec fn role_from_block(r: TomlRoleEnsemble, out: RoleEnsemble) -> bool {
    &&& out.role@ == r.role@
    &&& out.ensemble@ == r.ensemble@
    &&& if r.targets@.len() > 0 {
        &&& out.targets@.len() == r.targets@.len()
        &&& forall|i: int|
            0 <= i < r.targets@.len() ==> target_from_block(
                r.role@,
                #[trigger] r.targets@[i],
                out.targets@[i],
            )
    } else {
        &&& out.targets@.len() == r.carriers@.len()
        &&& forall|i: int|
            0 <= i < r.carriers@.len() ==> target_from_carrier(
                r.role@,
                (#[trigger] r.carriers@[i])@,
                out.targets@[i],
            )
    }
}

/// Expands one role block into its targets.
pub fn materialise_role(r: TomlRoleEnsemble) -> (out: RoleEnsemble)
    ensures
        role_from_block(r, out),
{
    let ghost orig = r;
    let role_name = r.role;
    let mut targets: Vec<Target> = Vec::new();
    if r.targets.len() > 0 {
        let mut rest = r.targets;
        let ghost all = orig.targets@;
        let mut k: usize = 0;
        while rest.len() > 0
            invariant
                k + rest@.len() == all.len(),
                all.len() <= usize::MAX,
                rest@ == all.skip(k as int),
                targets@.len() == k,
                role_name@ == orig.role@,
                forall|i: int| 0 <= i < k ==> target_from_block(orig.role@, all[i], #[trigger] targets@[i]),
            decreases rest@.len(),
        {
            let t = rest.remove(0);
            assert(t == all[k as int]);
            let target_type = match t.target_type {
                Some(tt) => tt,
                None => infer_target_type(t.host.as_str()),
            };
            let id = make_target_id(role_name.as_str(), t.host.as_str());
            targets.push(
                Target {
                    id,
                    target_type,
                    host: t.host,
                    overrides: t.plugin_overrides,
                    co_located_with: t.co_located_with,
                },
            );
            k = k + 1;
            assert(rest@ =~= all.skip(k as int));
        }
    } else {
        let mut rest = r.carriers;
        let ghost all = orig.carriers@;
        let _count: usize = rest.len();
        let mut k: usize = 0;
        while rest.len() > 0
            invariant
                k + rest@.len() == all.len(),
                all.len() <= usize::MAX,
                rest@ == all.skip(k as int),
                targets@.len() == k,
                role_name@ == orig.role@,
                forall|i: int|
                    0 <= i < k ==> target_from_carrier(orig.role@, all[i]@, #[trigger] targets@[i]),
            decreases rest@.len(),
        {
            let carrier = rest.remove(0);
            assert(carrier == all[k as int]);
            let target_type = infer_target_type(carrier.as_str());
            let id = make_target_id(role_name.as_str(), carrier.as_str());
            let overrides: BTreeMap<String, String> = BTreeMap::new();
            targets.push(
                Target { id, target_type, host: carrier, overrides, co_located_with: None },
            );
            k = k + 1;
            assert(rest@ =~= all.skip(k as int));
        }
    }
    RoleEnsemble { role: role_name, ensemble: r.ensemble, targets }
}

/// `out` is the state `t` describes: header fields as written, the class
/// hash of the class name, the keyholder fingerprint (empty without a
/// `[tg]` table) and each role expanded in order.
pub open spec fn state_from_file(t: TomlApiary, out: ApiaryState) -> bool {
    &&& out.name@ == t.apiary.name@
    &&& out.description@ == t.apiary.description@
    &&& out.class@ == t.apiary.class@
    &&& out.class_hash@ == hex_u32_spec(fnv_spec(crate::web::utf8(t.apiary.class@)))
    &&& out.version@ == t.apiary.version@
    &&& out.tg.keyholder_fp@ == match t.tg {
        Some(g) => g.keyholder_fp@,
        None => Seq::empty(),
    }
    &&& out.roles@.len() == t.role_ensembles@.len()
    &&& forall|i: int|
        0 <= i < t.role_ensembles@.len() ==> role_from_block(
            #[trigger] t.role_ensembles@[i],
            out.roles@[i],
        )
}

/// Turns a parsed `apiary.toml` into the rendered state.
pub fn materialise(t: TomlApiary) -> (out: ApiaryState)
    ensures
        state_from_file(t, out),
{
    let ghost orig = t;
    let class_hash = class_hash_hex(t.apiary.class.as_str());
    let keyholder_fp = match t.tg {
        Some(g) => g.keyholder_fp,
        None => String::new(),
    };
    let mut rest = t.role_ensembles;
    let ghost all = orig.role_ensembles@;
    let _count: usize = rest.len();
    let mut roles: Vec<RoleEnsemble> = Vec::new();
    let mut k: usize = 0;
    while rest.len() > 0
        invariant
            k + rest@.len() == all.len(),
            all.len() <= usize::MAX,
            rest@ == all.skip(k as int),
            roles@.len() == k,
            forall|i: int| 0 <= i < k ==> role_from_block(all[i], #[trigger] roles@[i]),
        decreases rest@.len(),
    {
        let r = rest.remove(0);
        assert(r == all[k as int]);
        roles.push(materialise_role(r));
        k = k + 1;
        assert(rest@ =~= all.skip(k as int));
    }
    ApiaryState {
        name: t.apiary.name,
        description: t.apiary.description,
        class: t.apiary.class,
        class_hash,
        version: t.apiary.version,
        tg: ApiaryTg { keyholder_fp },
        roles,
    }
}

/// The summary of a parsed `apiary.toml` found at `path`, last
/// modified at `last_modified`.
pub fn summary_of(h: &TomlApiaryHeader, path: &str, last_modified: &str) -> (r: ApiarySummary)
    ensures
        r.name@ == h.name@,
        r.class@ == h.class@,
        r.class_hash@ == hex_u32_spec(fnv_spec(crate::web::utf8(h.class@))),
        r.version@ == h.version@,
        r.description@ == h.description@,
        r.path@ == path@,
        r.last_modified@ == last_modified@,
{
    ApiarySummary {
        name: h.name.clone(),
        class: h.class.clone(),
        class_hash: class_hash_hex(h.class.as_str()),
        version: h.version.clone(),
        description: h.description.clone(),
        path: path.to_string(),
        last_modified: last_modified.to_string(),
    }
}

/// Newest first: no summary is followed by one modified later.
pub open spec fn newest_first(v: Seq<ApiarySummary>) -> bool {
    forall|i: int, j: int| 0 <= i < j < v.len() ==> !lex_lt(v[i].last_modified@, v[j].last_modified@)
}

/// The summaries of `s` whose `last_modified` is `k`, in their order in `s`.
pub open spec fn with_stamp(s: Seq<ApiarySummary>, k: Seq<char>) -> Seq<ApiarySummary>
    decreases s.len(),
{
    if s.len() == 0 {
        Seq::empty()
    } else if s.last().last_modified@ == k {
        with_stamp(s.drop_last(), k).push(s.last())
    } else {
        with_stamp(s.drop_last(), k)
    }
}

proof fn lemma_with_stamp_concat(a: Seq<ApiarySummary>, b: Seq<ApiarySummary>, k: Seq<char>)
    ensures
        with_stamp(a + b, k) == with_stamp(a, k) + with_stamp(b, k),
    decreases b.len(),
{
    if b.len() == 0 {
        assert(a + b =~= a);
        assert(with_stamp(a, k) + with_stamp(b, k) =~= with_stamp(a, k));
    } else {
        lemma_with_stamp_concat(a, b.drop_last(), k);
        assert((a + b).drop_last() =~= a + b.drop_last());
        assert((a + b).last() == b.last());
        if b.last().last_modified@ == k {
            assert(with_stamp(a, k) + with_stamp(b.drop_last(), k).push(b.last()) =~= (with_stamp(
                a,
                k,
            ) + with_stamp(b.drop_last(), k)).push(b.last()));
        }
    }
}

proof fn lemma_with_stamp_none(s: Seq<ApiarySummary>, k: Seq<char>)
    requires
        forall|j: int| 0 <= j < s.len() ==> s[j].last_modified@ != k,
    ensures
        with_stamp(s, k) == Seq::<ApiarySummary>::empty(),
    decreases s.len(),
{
    if s.len() > 0 {
        lemma_with_stamp_none(s.drop_last(), k);
    }
}

/// Inserting `x` at `p`, where everything from `p` on is strictly older
/// than `x`, appends `x` to its own stamp group and leaves the others.
proof fn lemma_with_stamp_insert(s: Seq<ApiarySummary>, p: int, x: ApiarySummary, k: Seq<char>)
    requires
        0 <= p <= s.len(),
        forall|j: int| p <= j < s.len() ==> s[j].last_modified@ != x.last_modified@,
    ensures
        with_stamp(s.insert(p, x), k) == if x.last_modified@ == k {
            with_stamp(s, k).push(x)
        } else {
            with_stamp(s, k)
        },
{
    let pre = s.take(p);
    let post = s.skip(p);
    assert(s =~= pre + post);
    assert(s.insert(p, x) =~= pre.push(x) + post);
    lemma_with_stamp_concat(pre, post, k);
    lemma_with_stamp_concat(pre.push(x), post, k);
    assert(pre.push(x).drop_last() =~= pre);
    if x.last_modified@ == k {
        assert forall|j: int| 0 <= j < post.len() implies post[j].last_modified@ != k by {
            assert(post[j] == s[p + j]);
        }
        lemma_with_stamp_none(post, k);
        assert(with_stamp(pre, k).push(x) + Seq::<ApiarySummary>::empty() =~= with_stamp(pre, k).push(x));
        assert(with_stamp(pre, k) + Seq::<ApiarySummary>::empty() =~= with_stamp(pre, k));
    }
}

/// Orders summaries newest first, by their `last_modified` text; summaries
/// with the same stamp keep their relative order.
pub fn sort_newest_first(v: Vec<ApiarySummary>) -> (r: Vec<ApiarySummary>)
    ensures
        newest_first(r@),
        r@.to_multiset() == v@.to_multiset(),
        forall|k: Seq<char>| #[trigger] with_stamp(r@, k) == with_stamp(v@, k),
{
    let mut out: Vec<ApiarySummary> = Vec::new();
    let mut input = v;
    let ghost orig = input@;
    let n = input.len();
    let mut i: usize = 0;
    assert(out@ =~= orig.take(0));
    while i < n
        invariant
            n == orig.len(),
            i <= n,
            newest_first(out@),
            out@.to_multiset() == orig.take(i as int).to_multiset(),
            forall|k: Seq<char>| #[trigger] with_stamp(out@, k) == with_stamp(orig.take(i as int), k),
            input@ == orig.skip(i as int),
        decreases n - i,
    {
        let x = input.remove(0);
        assert(x == orig[i as int]);
        assert(input@ =~= orig.skip(i + 1));
        let mut p: usize = 0;
        while p < out.len()
            invariant_except_break
                p <= out@.len(),
                forall|k: int| 0 <= k < p ==> !lex_lt(out@[k].last_modified@, x.last_modified@),
            ensures
                p <= out@.len(),
                forall|k: int| 0 <= k < p ==> !lex_lt(out@[k].last_modified@, x.last_modified@),
                p < out@.len() ==> lex_lt(out@[p as int].last_modified@, x.last_modified@),
            decreases out@.len() - p,
        {
            if str_lt(out[p].last_modified.as_str(), x.last_modified.as_str()) {
                break;
            }
            p = p + 1;
        }
        let ghost before = out@;
        out.insert(p, x);
        proof {
            assert(out@ == before.insert(p as int, x));
            assert forall|a: int, b: int| 0 <= a < b < out@.len() implies !lex_lt(
                out@[a].last_modified@,
                out@[b].last_modified@,
            ) by {
                if b == p {
                    assert(out@[a] == before[a]);
                } else if a == p {
                    let y = before[b - 1];
                    assert(out@[b] == y);
                    let top = before[p as int];
                    assert(lex_lt(top.last_modified@, x.last_modified@));
                    if y.last_modified@ != top.last_modified@ {
                        assert(!lex_lt(top.last_modified@, y.last_modified@));
                        lemma_lex_total(y.last_modified@, top.last_modified@);
                        lemma_lex_transitive(y.last_modified@, top.last_modified@, x.last_modified@);
                    }
                    lemma_lex_asymmetric(y.last_modified@, x.last_modified@);
                } else {
                    let aa = if a < p { a } else { a - 1 };
                    let bb = if b < p { b } else { b - 1 };
                    assert(out@[a] == before[aa]);
                    assert(out@[b] == before[bb]);
                }
            }
            assert(orig.take(i + 1) =~= orig.take(i as int).push(x));
            assert forall|j: int| p <= j < before.len() implies before[j].last_modified@
                != x.last_modified@ by {
                let top = before[p as int];
                if j > p && before[j].last_modified@ != top.last_modified@ {
                    lemma_lex_total(before[j].last_modified@, top.last_modified@);
                    lemma_lex_transitive(before[j].last_modified@, top.last_modified@, x.last_modified@);
                }
                lemma_lex_asymmetric(before[j].last_modified@, x.last_modified@);
            }
            assert forall|k: Seq<char>| #[trigger] with_stamp(out@, k) == with_stamp(
                orig.take(i + 1),
                k,
            ) by {
                lemma_with_stamp_insert(before, p as int, x, k);
                assert(orig.take(i + 1).drop_last() =~= orig.take(i as int));
            }
            vstd::seq_lib::to_multiset_insert(before, p as int, x);
            vstd::seq_lib::to_multiset_build(orig.take(i as int), x);
        }
        i = i + 1;
    }
    assert(orig.take(n as int) =~= orig);
    out
}

} // verus!

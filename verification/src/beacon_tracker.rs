//! The beacon observer's memory between scan rounds: for each BLE
//! address seen, its last observation, its change fingerprint and when
//! it was last observed. A sighting is announced only when the address
//! is new or its fingerprint changed (an RSSI change alone is noise); an
//! address missing from a round and not observed for long enough is
//! dropped and announced lost.
//!
//! Scanning, and the clock the times come from (milliseconds on a
//! monotonic clock), are the host's.

use vstd::prelude::*;

use crate::beacon::BeaconObservation;
use crate::text::{str_eq, string_views};

verus! {

/// How long an address may go unobserved before it is lost.
pub const LOST_AFTER_MS: u64 = 60_000;

/// What is kept of an address: the address, its fingerprint, when it
/// was last observed, and the observation.
pub type SeenView = (Seq<char>, u64, u64, BeaconObservation);

struct SeenEntry {
    obs: BeaconObservation,
    fingerprint: u64,
    last_observed_ms: u64,
}

/// The table of addresses seen.
pub struct BeaconTracker {
    seen: Vec<SeenEntry>,
}

spec fn entry_view(e: SeenEntry) -> SeenView {
    (e.obs.ble_addr@, e.fingerprint, e.last_observed_ms, e.obs)
}

/// The addresses of a table, in order.
pub open spec fn addrs_of(v: Seq<SeenView>) -> Seq<Seq<char>> {
    Seq::new(v.len(), |i: int| v[i].0)
}

/// Where `addr` is in the table, if it is.
pub open spec fn index_of(v: Seq<SeenView>, addr: Seq<char>) -> Option<int> {
    if exists|i: int| 0 <= i < v.len() && v[i].0 == addr {
        Some(choose|i: int| 0 <= i < v.len() && v[i].0 == addr)
    } else {
        None
    }
}

/// An entry is lost when its address was not observed this round and
/// it has gone unobserved for at least `after` milliseconds by `now`.
pub open spec fn is_lost(observed: Seq<Seq<char>>, now: u64, after: u64) -> spec_fn(SeenView) -> bool {
    |x: SeenView| !observed.contains(x.0) && now >= x.2 + after
}

/// The entries kept by a sweep.
pub open spec fn is_kept(observed: Seq<Seq<char>>, now: u64, after: u64) -> spec_fn(SeenView) -> bool {
    |x: SeenView| !(!observed.contains(x.0) && now >= x.2 + after)
}

/// The observations of some entries, in order.
pub open spec fn observations(v: Seq<SeenView>) -> Seq<BeaconObservation> {
    Seq::new(v.len(), |i: int| v[i].3)
}

fn copy_obs(o: &BeaconObservation) -> (r: BeaconObservation)
    ensures
        r == *o,
{
    BeaconObservation {
        ble_addr: o.ble_addr.clone(),
        rbid: o.rbid.clone(),
        class_hash: o.class_hash.clone(),
        provisioning: o.provisioning,
        mcu_mode: o.mcu_mode,
        mobile: o.mobile,
        tx_power_dbm: o.tx_power_dbm,
        rssi: o.rssi,
        anti_collision: o.anti_collision,
        first_seen: o.first_seen.clone(),
        last_seen: o.last_seen.clone(),
    }
}

proof fn lemma_take_push_contains(s: Seq<Seq<char>>, j: int, a: Seq<char>)
    requires
        0 <= j < s.len(),
    ensures
        s.take(j + 1).contains(a) == (s.take(j).contains(a) || s[j] == a),
{
    let t1 = s.take(j + 1);
    let t0 = s.take(j);
    if t1.contains(a) {
        let k = choose|k: int| 0 <= k < t1.len() && t1[k] == a;
        if k < j {
            assert(t0[k] == a);
        }
    }
    if t0.contains(a) {
        let k = choose|k: int| 0 <= k < t0.len() && t0[k] == a;
        assert(t1[k] == a);
    }
    if s[j] == a {
        assert(s.take(j + 1)[j] == a);
    }
}

impl BeaconTracker {
    #[verifier::type_invariant]
    spec fn well_formed(self) -> bool {
        addrs_of(self.table()).no_duplicates()
    }

    /// The table: one entry per address, in the order first seen.
    pub closed spec fn table(self) -> Seq<SeenView> {
        Seq::new(self.seen@.len(), |i: int| entry_view(self.seen@[i]))
    }

    /// An empty table.
    pub fn new() -> (t: Self)
        ensures
            t.table() == Seq::<SeenView>::empty(),
    {
        let t = BeaconTracker { seen: Vec::new() };
        assert(t.table() =~= Seq::<SeenView>::empty());
        t
    }

    fn position(&self, addr: &str) -> (r: Option<usize>)
        ensures
            r == match index_of(self.table(), addr@) {
                Some(i) => Some(i as usize),
                None => None::<usize>,
            },
            r matches Some(i) ==> i < self.table().len() && self.table()[i as int].0 == addr@
                && index_of(self.table(), addr@) == Some(i as int),
            r is None ==> index_of(self.table(), addr@) is None,
    {
        proof {
            use_type_invariant(self);
        }
        let ghost t = self.table();
        let mut i: usize = 0;
        while i < self.seen.len()
            invariant
                t == self.table(),
                addrs_of(t).no_duplicates(),
                i <= t.len(),
                forall|j: int| 0 <= j < i ==> t[j].0 != addr@,
            decreases t.len() - i,
        {
            if str_eq(self.seen[i].obs.ble_addr.as_str(), addr) {
                proof {
                    assert(t[i as int].0 == addr@);
                    let c = choose|k: int| 0 <= k < t.len() && t[k].0 == addr@;
                    if c != i {
                        assert(addrs_of(t)[c] == addrs_of(t)[i as int]);
                    }
                }
                return Some(i);
            }
            i = i + 1;
        }
        None
    }

    /// When `addr` was first seen, if it is in the table.
    pub fn first_seen(&self, addr: &str) -> (r: Option<String>)
        ensures
            match index_of(self.table(), addr@) {
                Some(i) => r matches Some(s) && s@ == self.table()[i].3.first_seen@,
                None => r is None,
            },
    {
        match self.position(addr) {
            Some(i) => {
                assert(self.table()[i as int] == entry_view(self.seen@[i as int]));
                Some(self.seen[i].obs.first_seen.clone())
            },
            None => None,
        }
    }

    /// Records a sighting at `now`: the entry for its address is replaced
    /// (or added at the end). Returns whether it is to be announced: the
    /// address is new, or its fingerprint changed.
    pub fn record(&mut self, obs: BeaconObservation, fingerprint: u64, now: u64) -> (announce: bool)
        ensures
            ({
                let t = old(self).table();
                let e = (obs.ble_addr@, fingerprint, now, obs);
                match index_of(t, obs.ble_addr@) {
                    Some(i) => announce == (t[i].1 != fingerprint) && final(self).table() == t.update(i, e),
                    None => announce && final(self).table() == t.push(e),
                }
            }),
    {
        proof {
            use_type_invariant(&*self);
        }
        let ghost t = self.table();
        let pos = self.position(obs.ble_addr.as_str());
        let mut v: Vec<SeenEntry> = Vec::new();
        std::mem::swap(&mut v, &mut self.seen);
        let ghost e = (obs.ble_addr@, fingerprint, now, obs);
        match pos {
            Some(i) => {
                let changed = v[i].fingerprint != fingerprint;
                v.set(i, SeenEntry { obs, fingerprint, last_observed_ms: now });
                let ghost nt = Seq::new(v@.len(), |k: int| entry_view(v@[k]));
                proof {
                    assert(nt =~= t.update(i as int, e));
                    assert(addrs_of(nt) =~= addrs_of(t));
                }
                self.seen = v;
                changed
            },
            None => {
                v.push(SeenEntry { obs, fingerprint, last_observed_ms: now });
                let ghost nt = Seq::new(v@.len(), |k: int| entry_view(v@[k]));
                proof {
                    assert(nt =~= t.push(e));
                    assert(addrs_of(nt) =~= addrs_of(t).push(e.0));
                    assert(!addrs_of(t).contains(e.0)) by {
                        if addrs_of(t).contains(e.0) {
                            let k = choose|k: int| 0 <= k < addrs_of(t).len() && addrs_of(t)[k] == e.0;
                            assert(t[k].0 == e.0);
                        }
                    }
                    assert forall|p: int, q: int| 0 <= p < q < addrs_of(nt).len() implies addrs_of(nt)[p]
                        != addrs_of(nt)[q] by {
                        if q == addrs_of(nt).len() - 1 {
                            assert(addrs_of(t).contains(addrs_of(nt)[p]));
                        }
                    }
                }
                self.seen = v;
                true
            },
        }
    }

    /// Drops the entries lost this round (see [`is_lost`]) and returns
    /// their observations, in table order.
    pub fn sweep(&mut self, observed: &[String], now: u64, after: u64) -> (lost: Vec<BeaconObservation>)
        ensures
            ({
                let t = old(self).table();
                let ov = string_views(observed@);
                &&& final(self).table() == t.filter(is_kept(ov, now, after))
                &&& lost@ == observations(t.filter(is_lost(ov, now, after)))
            }),
    {
        proof {
            use_type_invariant(&*self);
        }
        let ghost t = self.table();
        let ghost ov = string_views(observed@);
        let mut old_v: Vec<SeenEntry> = Vec::new();
        std::mem::swap(&mut old_v, &mut self.seen);
        assert(Seq::new(old_v@.len(), |k: int| entry_view(old_v@[k])) == t);
        let mut kept: Vec<SeenEntry> = Vec::new();
        let mut lost: Vec<BeaconObservation> = Vec::new();
        let mut i: usize = 0;
        let n = old_v.len();
        while i < n
            invariant
                n == old_v@.len(),
                t.len() == n,
                forall|k: int| 0 <= k < n ==> #[trigger] entry_view(old_v@[k]) == t[k],
                ov == string_views(observed@),
                i <= n,
                Seq::new(kept@.len(), |k: int| entry_view(kept@[k])) == t.take(i as int).filter(is_kept(ov, now, after)),
                lost@ == observations(t.take(i as int).filter(is_lost(ov, now, after))),
            decreases n - i,
        {
            let e = &old_v[i];
            let mut seen_now = false;
            let mut j: usize = 0;
            while j < observed.len()
                invariant
                    j <= observed@.len(),
                    ov == string_views(observed@),
                    seen_now == ov.take(j as int).contains(e.obs.ble_addr@),
                decreases observed@.len() - j,
            {
                if str_eq(observed[j].as_str(), e.obs.ble_addr.as_str()) {
                    seen_now = true;
                }
                proof {
                    assert(ov[j as int] == observed@[j as int]@);
                    lemma_take_push_contains(ov, j as int, e.obs.ble_addr@);
                }
                j = j + 1;
            }
            assert(ov.take(observed@.len() as int) =~= ov);
            let gone = !seen_now && now >= e.last_observed_ms && now - e.last_observed_ms >= after;
            let ghost x = t[i as int];
            assert(entry_view(old_v@[i as int]) == x);
            assert(gone == is_lost(ov, now, after)(x));
            assert(!gone == is_kept(ov, now, after)(x));
            proof {
                reveal(Seq::filter);
                assert(t.take(i + 1).drop_last() =~= t.take(i as int));
                assert(t.take(i + 1).last() == x);
            }
            let ghost kept_before = kept@;
            let ghost lost_before = lost@;
            if gone {
                lost.push(copy_obs(&e.obs));
                proof {
                    assert(lost@.last() == x.3);
                    assert(lost@ =~= observations(t.take(i + 1).filter(is_lost(ov, now, after))));
                    assert(Seq::new(kept@.len(), |k: int| entry_view(kept@[k])) =~= t.take(i + 1).filter(is_kept(ov, now, after)));
                }
            } else {
                let c = SeenEntry {
                    obs: copy_obs(&e.obs),
                    fingerprint: e.fingerprint,
                    last_observed_ms: e.last_observed_ms,
                };
                kept.push(c);
                proof {
                    assert(Seq::new(kept@.len(), |k: int| entry_view(kept@[k])) =~= t.take(i + 1).filter(is_kept(ov, now, after)));
                    assert(lost@ =~= observations(t.take(i + 1).filter(is_lost(ov, now, after))));
                }
            }
            i = i + 1;
        }
        assert(t.take(n as int) =~= t);
        proof {
            let nt = Seq::new(kept@.len(), |k: int| entry_view(kept@[k]));
            assert(nt == t.filter(is_kept(ov, now, after)));
            lemma_filter_keeps_distinct(t, is_kept(ov, now, after));
            assert(addrs_of(nt).no_duplicates());
        }
        self.seen = kept;
        lost
    }

    /// The observations in the table, in order.
    pub fn snapshot(&self) -> (v: Vec<BeaconObservation>)
        ensures
            v@ == observations(self.table()),
    {
        let mut v: Vec<BeaconObservation> = Vec::new();
        let mut i: usize = 0;
        while i < self.seen.len()
            invariant
                i <= self.seen@.len(),
                v@ == observations(self.table().take(i as int)),
            decreases self.seen@.len() - i,
        {
            v.push(copy_obs(&self.seen[i].obs));
            assert(self.table()[i as int] == entry_view(self.seen@[i as int]));
            assert(v@ =~= observations(self.table().take(i + 1)));
            i = i + 1;
        }
        assert(self.table().take(self.seen@.len() as int) =~= self.table());
        v
    }
}

/// Filtering a table with distinct addresses keeps them distinct.
pub proof fn lemma_filter_keeps_distinct(t: Seq<SeenView>, p: spec_fn(SeenView) -> bool)
    requires
        addrs_of(t).no_duplicates(),
    ensures
        addrs_of(t.filter(p)).no_duplicates(),
        forall|a: Seq<char>| addrs_of(t.filter(p)).contains(a) ==> addrs_of(t).contains(a),
    decreases t.len(),
{
    reveal(Seq::filter);
    if t.len() > 0 {
        let s = t.drop_last();
        assert(addrs_of(s) =~= addrs_of(t).drop_last());
        assert forall|i: int, j: int| 0 <= i < j < addrs_of(s).len() implies addrs_of(s)[i] != addrs_of(s)[j] by {
            assert(addrs_of(s)[i] == addrs_of(t)[i]);
            assert(addrs_of(s)[j] == addrs_of(t)[j]);
        }
        lemma_filter_keeps_distinct(s, p);
        let fs = s.filter(p);
        if p(t.last()) {
            let f = fs.push(t.last());
            assert(t.filter(p) == f);
            assert(addrs_of(f) =~= addrs_of(fs).push(t.last().0));
            assert(!addrs_of(fs).contains(t.last().0)) by {
                if addrs_of(fs).contains(t.last().0) {
                    assert(addrs_of(s).contains(t.last().0));
                    let k = choose|k: int| 0 <= k < addrs_of(s).len() && addrs_of(s)[k] == t.last().0;
                    assert(addrs_of(t)[k] == addrs_of(t)[t.len() - 1]);
                }
            }
            assert forall|i: int, j: int| 0 <= i < j < addrs_of(f).len() implies addrs_of(f)[i] != addrs_of(f)[j] by {
                if j == addrs_of(f).len() - 1 {
                    assert(addrs_of(fs).contains(addrs_of(f)[i]));
                }
            }
            assert forall|a: Seq<char>| addrs_of(f).contains(a) implies addrs_of(t).contains(a) by {
                let k = choose|k: int| 0 <= k < addrs_of(f).len() && addrs_of(f)[k] == a;
                if k == addrs_of(f).len() - 1 {
                    assert(addrs_of(t)[t.len() - 1] == a);
                } else {
                    assert(addrs_of(fs).contains(a));
                    assert(addrs_of(s).contains(a));
                    let m = choose|m: int| 0 <= m < addrs_of(s).len() && addrs_of(s)[m] == a;
                    assert(addrs_of(t)[m] == a);
                }
            }
        } else {
            assert(t.filter(p) == fs);
            assert forall|a: Seq<char>| addrs_of(fs).contains(a) implies addrs_of(t).contains(a) by {
                assert(addrs_of(s).contains(a));
                let m = choose|m: int| 0 <= m < addrs_of(s).len() && addrs_of(s)[m] == a;
                assert(addrs_of(t)[m] == a);
            }
        }
    }
}

} // verus!

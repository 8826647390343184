//! The expiring grant store: one grant record per key, active until its
//! expiration, removed only on request or when pruned.

use vstd::prelude::*;

use crate::deep_eq::{DeepEq, Duplicate};
use crate::grants::Timestamp;

verus! {

/// Grant settings that carry an expiration and name a grantee.
pub trait Expirable: Duplicate {
    /// The expiration, in nanoseconds since the epoch.
    spec fn expiration_nanos(&self) -> u64;

    /// The grantee's address.
    spec fn grantee_address(&self) -> Seq<char>;

    /// The expiration.
    fn expiration(&self) -> (r: Timestamp)
        ensures
            r.nanos == self.expiration_nanos(),
    ;

    /// Whether the grant is for `grantee`.
    fn is_for_grantee(&self, grantee: &String) -> (r: bool)
        ensures
            r == (self.grantee_address() == grantee@),
    ;

    /// The grant has lapsed at `now`.
    fn is_expired(&self, now: Timestamp) -> (r: bool)
        ensures
            r == (now.nanos > self.expiration_nanos()),
    ;

    /// The grant is still active at `now`.
    fn is_not_expired(&self, now: Timestamp) -> (r: bool)
        ensures
            r == (now.nanos <= self.expiration_nanos()),
    ;
}

/// A grant with expiration `expiration` is active at `now` up to and including
/// the expiration itself.
pub open spec fn active_at(expiration: u64, now: Timestamp) -> bool {
    now.nanos <= expiration
}

/// The records of `s` still active at `now`, in order.
pub open spec fn keep_active<K, S: Expirable>(s: Seq<(K, S)>, now: Timestamp) -> Seq<(K, S)>
    decreases s.len(),
{
    if s.len() == 0 {
        s
    } else {
        let r = keep_active(s.drop_last(), now);
        if active_at(s.last().1.expiration_nanos(), now) {
            r.push(s.last())
        } else {
            r
        }
    }
}

/// The records of `s` active at `now` whose grantee is `grantee`, in order.
pub open spec fn active_for_grantee<K, S: Expirable>(
    s: Seq<(K, S)>,
    grantee: Seq<char>,
    now: Timestamp,
) -> Seq<(K, S)>
    decreases s.len(),
{
    if s.len() == 0 {
        s
    } else {
        let r = active_for_grantee(s.drop_last(), grantee, now);
        if active_at(s.last().1.expiration_nanos(), now) && s.last().1.grantee_address()
            == grantee {
            r.push(s.last())
        } else {
            r
        }
    }
}

/// No key occurs twice.
pub open spec fn keys_unique<K, S>(s: Seq<(K, S)>) -> bool {
    forall|i: int, j: int| 0 <= i < j < s.len() ==> s[i].0 != s[j].0
}

/// `i` is the position of the record with key `key`.
pub open spec fn key_at<K, S>(s: Seq<(K, S)>, key: K, i: int) -> bool {
    0 <= i < s.len() && s[i].0 == key
}

/// The records after saving `settings` under `key`: the record of that key is
/// replaced, or a new one is appended.
pub open spec fn upsert<K, S>(s: Seq<(K, S)>, key: K, settings: S) -> Seq<(K, S)> {
    if exists|i: int| key_at(s, key, i) {
        let i = choose|i: int| key_at(s, key, i);
        s.update(i, (key, settings))
    } else {
        s.push((key, settings))
    }
}

/// The records without the one of `key`.
pub open spec fn without_key<K, S>(s: Seq<(K, S)>, key: K) -> Seq<(K, S)> {
    if exists|i: int| key_at(s, key, i) {
        let i = choose|i: int| key_at(s, key, i);
        s.remove(i)
    } else {
        s
    }
}

proof fn lemma_keep_active_contains<K, S: Expirable>(s: Seq<(K, S)>, now: Timestamp, x: (K, S))
    requires
        keep_active(s, now).contains(x),
    ensures
        s.contains(x),
    decreases s.len(),
{
    if s.len() > 0 {
        let r = keep_active(s.drop_last(), now);
        if r.contains(x) {
            lemma_keep_active_contains(s.drop_last(), now, x);
            let j = choose|j: int| 0 <= j < s.drop_last().len() && s.drop_last()[j] == x;
            assert(s[j] == x);
        } else {
            assert(s[s.len() - 1] == x);
        }
    }
}

/// Pruning keeps exactly the records active at `now`.
pub proof fn lemma_keep_active_exact<K, S: Expirable>(s: Seq<(K, S)>, now: Timestamp, x: (K, S))
    ensures
        keep_active(s, now).contains(x) <==> s.contains(x) && active_at(x.1.expiration_nanos(), now),
    decreases s.len(),
{
    if s.len() > 0 {
        let d = s.drop_last();
        let r = keep_active(d, now);
        lemma_keep_active_exact(d, now, x);
        let last_active = active_at(s.last().1.expiration_nanos(), now);
        if last_active {
            assert(keep_active(s, now) == r.push(s.last()));
        } else {
            assert(keep_active(s, now) == r);
        }
        if keep_active(s, now).contains(x) {
            if r.contains(x) {
                let j = choose|j: int| 0 <= j < d.len() && d[j] == x;
                assert(s[j] == x);
            } else {
                let j = choose|j: int| 0 <= j < keep_active(s, now).len() && keep_active(s, now)[j] == x;
                assert(j == r.len());
                assert(x == s.last());
                assert(s[s.len() - 1] == x);
            }
        }
        if s.contains(x) && active_at(x.1.expiration_nanos(), now) {
            let j = choose|j: int| 0 <= j < s.len() && s[j] == x;
            if j < s.len() - 1 {
                assert(d[j] == x);
                let m = choose|m: int| 0 <= m < r.len() && r[m] == x;
                assert(keep_active(s, now)[m] == x);
            } else {
                assert(keep_active(s, now)[keep_active(s, now).len() - 1] == x);
            }
        }
    }
}

/// Pruning twice at the same time removes nothing the second time.
pub proof fn lemma_prune_twice<K, S: Expirable>(s: Seq<(K, S)>, now: Timestamp)
    ensures
        keep_active(keep_active(s, now), now) == keep_active(s, now),
    decreases s.len(),
{
    if s.len() > 0 {
        let d = s.drop_last();
        lemma_prune_twice(d, now);
        let r = keep_active(d, now);
        if active_at(s.last().1.expiration_nanos(), now) {
            assert(r.push(s.last()).drop_last() =~= r);
        }
    }
}

proof fn lemma_keep_active_subsequence<K, S: Expirable>(s: Seq<(K, S)>, now: Timestamp)
    requires
        keys_unique(s),
    ensures
        keys_unique(keep_active(s, now)),
    decreases s.len(),
{
    if s.len() > 0 {
        let d = s.drop_last();
        assert(keys_unique(d));
        lemma_keep_active_subsequence(d, now);
        let r = keep_active(d, now);
        if active_at(s.last().1.expiration_nanos(), now) {
            assert forall|i: int| 0 <= i < r.len() implies r[i].0 != s.last().0 by {
                assert(r.contains(r[i]));
                lemma_keep_active_contains(d, now, r[i]);
                let j = choose|j: int| 0 <= j < d.len() && d[j] == r[i];
                assert(s[j] == r[i]);
            }
            assert(keep_active(s, now) == r.push(s.last()));
        }
    }
}

/// The settings of `key` when its record is active at `now`.
pub open spec fn active_grant<K, S: Expirable>(s: Seq<(K, S)>, key: K, now: Timestamp) -> Option<S> {
    if exists|i: int| key_at(s, key, i) && active_at(s[i].1.expiration_nanos(), now) {
        let i = choose|i: int| key_at(s, key, i) && active_at(s[i].1.expiration_nanos(), now);
        Some(s[i].1)
    } else {
        None
    }
}

/// One grant record per key, in the order keys were first saved.
pub struct GrantStore<K, S> {
    records: Vec<(K, S)>,
}

impl<K: DeepEq + Duplicate, S: Expirable> GrantStore<K, S> {
    /// The records, keys by their deep view.
    pub closed spec fn records(&self) -> Seq<(K::V, S)> {
        self.records@.map_values(|r: (K, S)| (r.0.deep_view(), r.1))
    }

    /// Keys are unique.
    pub open spec fn wf(&self) -> bool {
        keys_unique(self.records())
    }

    /// An empty store.
    pub fn new() -> (r: Self)
        ensures
            r.wf(),
            r.records() == Seq::<(K::V, S)>::empty(),
    {
        let r = GrantStore { records: Vec::new() };
        assert(r.records() =~= Seq::<(K::V, S)>::empty());
        r
    }

    /// The number of stored records.
    pub fn len(&self) -> (r: usize)
        ensures
            r == self.records().len(),
    {
        self.records.len()
    }

    fn position(&self, key: &K) -> (r: Option<usize>)
        requires
            self.wf(),
        ensures
            match r {
                Some(i) => key_at(self.records(), key.deep_view(), i as int),
                None => !(exists|i: int| key_at(self.records(), key.deep_view(), i)),
            },
    {
        let mut i: usize = 0;
        while i < self.records.len()
            invariant
                i <= self.records.len(),
                forall|m: int| 0 <= m < i ==> self.records()[m].0 != key.deep_view(),
            decreases self.records.len() - i,
        {
            assert(self.records()[i as int].0 == self.records@[i as int].0.deep_view());
            if self.records[i].0.deep_eq(key) {
                return Some(i);
            }
            i = i + 1;
        }
        None
    }

    /// Saves `settings` under `key`, replacing any record of that key.
    pub fn save(&mut self, key: K, settings: S)
        requires
            old(self).wf(),
        ensures
            final(self).wf(),
            final(self).records() == upsert(old(self).records(), key.deep_view(), settings),
    {
        let ghost before = self.records();
        let ghost kv = key.deep_view();
        match self.position(&key) {
            Some(i) => {
                proof {
                    assert forall|j: int| key_at(before, kv, j) implies j == i by {}
                }
                assert(before[i as int].0 == kv);
                self.records.set(i, (key, settings));
                assert(self.records() =~= before.update(i as int, (kv, settings)));
            },
            None => {
                assert forall|m: int| 0 <= m < before.len() implies before[m].0 != kv by {
                    assert(!key_at(before, kv, m));
                }
                self.records.push((key, settings));
                assert(self.records() =~= before.push((kv, settings)));
            },
        }
    }

    /// Deletes the record of `key`, if there is one.
    pub fn remove(&mut self, key: &K)
        requires
            old(self).wf(),
        ensures
            final(self).wf(),
            final(self).records() == without_key(old(self).records(), key.deep_view()),
    {
        let ghost before = self.records();
        match self.position(key) {
            Some(i) => {
                proof {
                    assert forall|j: int| key_at(before, key.deep_view(), j) implies j == i by {}
                }
                self.records.remove(i);
                assert(self.records() =~= before.remove(i as int));
            },
            None => {},
        }
    }

    /// The settings saved under `key`, whether active or not.
    pub fn load(&self, key: &K) -> (r: Option<&S>)
        requires
            self.wf(),
        ensures
            match r {
                Some(s) => exists|i: int|
                    key_at(self.records(), key.deep_view(), i) && self.records()[i].1 == *s,
                None => !(exists|i: int| key_at(self.records(), key.deep_view(), i)),
            },
    {
        match self.position(key) {
            Some(i) => Some(&self.records[i].1),
            None => None,
        }
    }

    /// The settings saved under `key` if they are active at `now`; a lapsed
    /// record reads as absent but stays stored.
    pub fn load_active(&self, key: &K, now: Timestamp) -> (r: Option<&S>)
        requires
            self.wf(),
        ensures
            match r {
                Some(s) => active_grant(self.records(), key.deep_view(), now) == Some(*s),
                None => active_grant(self.records(), key.deep_view(), now) is None,
            },
    {
        let ghost recs = self.records();
        let ghost kv = key.deep_view();
        match self.position(key) {
            Some(i) => {
                proof {
                    assert forall|j: int| key_at(recs, kv, j) implies j == i by {}
                }
                if self.records[i].1.is_not_expired(now) {
                    assert(recs[i as int].1 == self.records@[i as int].1);
                    Some(&self.records[i].1)
                } else {
                    None
                }
            },
            None => None,
        }
    }

    /// Copies of the records active at `now` whose grantee is `grantee`.
    pub fn list_active_by_grantee(&self, grantee: &String, now: Timestamp) -> (r: Vec<(K, S)>)
        ensures
            r.deep_view() == active_for_grantee(self.records(), grantee@, now).map_values(
                |x: (K::V, S)| (x.0, x.1.deep_view()),
            ),
    {
        let mut out: Vec<(K, S)> = Vec::new();
        let mut i: usize = 0;
        while i < self.records.len()
            invariant
                i <= self.records.len(),
                out.deep_view() == active_for_grantee(
                    self.records().take(i as int),
                    grantee@,
                    now,
                ).map_values(|x: (K::V, S)| (x.0, x.1.deep_view())),
            decreases self.records.len() - i,
        {
            let ghost next = self.records().take(i as int + 1);
            assert(next.drop_last() =~= self.records().take(i as int));
            assert(next.last() == self.records()[i as int]);
            let ghost before = out.deep_view();
            let record = &self.records[i];
            if record.1.is_not_expired(now) && record.1.is_for_grantee(grantee) {
                out.push((record.0.duplicate(), record.1.duplicate()));
                assert(out.deep_view() =~= before.push(
                    (self.records()[i as int].0, self.records()[i as int].1.deep_view()),
                ));
            }
            i = i + 1;
            assert(out.deep_view() =~= active_for_grantee(next, grantee@, now).map_values(
                |x: (K::V, S)| (x.0, x.1.deep_view()),
            ));
        }
        assert(self.records().take(self.records.len() as int) =~= self.records());
        out
    }

    /// Removes every record that has lapsed at `now` and returns how many were
    /// removed; active records are kept as they were.
    pub fn prune_expired(&mut self, now: Timestamp) -> (r: usize)
        requires
            old(self).wf(),
        ensures
            final(self).wf(),
            final(self).records() == keep_active(old(self).records(), now),
            r == old(self).records().len() - final(self).records().len(),
    {
        let ghost before = self.records();
        let mut rest: Vec<(K, S)> = Vec::new();
        std::mem::swap(&mut self.records, &mut rest);
        let n = rest.len();
        let mut kept: Vec<(K, S)> = Vec::new();
        let mut removed: usize = 0;
        let mut k: usize = 0;
        proof {
            assert(rest@.map_values(|r: (K, S)| (r.0.deep_view(), r.1)) == before);
            assert(before.take(0) =~= Seq::<(K::V, S)>::empty());
        }
        while rest.len() > 0
            invariant
                k + rest.len() == n,
                n == before.len(),
                removed <= k,
                kept@.len() + removed == k,
                rest@.map_values(|r: (K, S)| (r.0.deep_view(), r.1)) == before.subrange(
                    k as int,
                    n as int,
                ),
                kept@.map_values(|r: (K, S)| (r.0.deep_view(), r.1)) == keep_active(
                    before.take(k as int),
                    now,
                ),
            decreases rest.len(),
        {
            let ghost rv = rest@.map_values(|r: (K, S)| (r.0.deep_view(), r.1));
            assert(rv[0] == before[k as int]);
            let ghost old_rest = rest@;
            let record = rest.remove(0);
            assert(rest@ == old_rest.remove(0));
            assert(rest@.map_values(|r: (K, S)| (r.0.deep_view(), r.1)) =~= rv.subrange(
                1,
                rv.len() as int,
            ));
            assert(rest@.map_values(|r: (K, S)| (r.0.deep_view(), r.1)) =~= before.subrange(
                k as int + 1,
                n as int,
            ));
            let ghost next = before.take(k as int + 1);
            assert(next.drop_last() =~= before.take(k as int));
            assert(next.last() == before[k as int]);
            let ghost kv = kept@.map_values(|r: (K, S)| (r.0.deep_view(), r.1));
            if record.1.is_expired(now) {
                removed = removed + 1;
            } else {
                kept.push(record);
                assert(kept@.map_values(|r: (K, S)| (r.0.deep_view(), r.1)) =~= kv.push(
                    before[k as int],
                ));
            }
            k = k + 1;
        }
        assert(before.take(n as int) =~= before);
        self.records = kept;
        proof {
            lemma_keep_active_subsequence(before, now);
        }
        removed
    }
}

} // verus!

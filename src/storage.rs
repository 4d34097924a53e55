use vstd::prelude::*;
use crate::types::{DataKey, Value};

verus! {

/// One stored record: its key, its value, and the last ledger sequence at
/// which it can still be read.
pub struct Entry {
    pub key: DataKey,
    pub value: Value,
    pub live_until: u64,
}

/// The entry with key `k` in `s`, searching from the back.
pub open spec fn find(s: Seq<Entry>, k: DataKey) -> Option<Entry>
    decreases s.len(),
{
    if s.len() == 0 {
        None
    } else if s.last().key == k {
        Some(s.last())
    } else {
        find(s.drop_last(), k)
    }
}

pub open spec fn unique_keys(s: Seq<Entry>) -> bool {
    forall|i: int, j: int| 0 <= i < j < s.len() ==> s[i].key != s[j].key
}

proof fn lemma_find_at(s: Seq<Entry>, i: int)
    requires
        unique_keys(s),
        0 <= i < s.len(),
    ensures
        find(s, s[i].key) == Some(s[i]),
    decreases s.len(),
{
    if i < s.len() - 1 {
        let t = s.drop_last();
        assert(t[i] == s[i]);
        lemma_find_at(t, i);
    }
}

proof fn lemma_find_absent(s: Seq<Entry>, k: DataKey)
    requires
        forall|i: int| 0 <= i < s.len() ==> s[i].key != k,
    ensures
        find(s, k) is None,
    decreases s.len(),
{
    if s.len() > 0 {
        let t = s.drop_last();
        assert forall|i: int| 0 <= i < t.len() implies t[i].key != k by {
            assert(t[i] == s[i]);
        }
        lemma_find_absent(t, k);
    }
}

/// What `find` answers for every key, under unique keys.
proof fn lemma_find_all(s: Seq<Entry>, k: DataKey)
    requires
        unique_keys(s),
    ensures
        find(s, k) is Some <==> exists|i: int| 0 <= i < s.len() && s[i].key == k,
        forall|i: int| 0 <= i < s.len() && s[i].key == k ==> find(s, k) == Some(s[i]),
{
    assert forall|i: int| 0 <= i < s.len() && s[i].key == k implies find(s, k) == Some(s[i]) by {
        lemma_find_at(s, i);
    }
    if !(exists|i: int| 0 <= i < s.len() && s[i].key == k) {
        lemma_find_absent(s, k);
    }
}

/// The three storage classes.
#[derive(PartialEq, Eq, Structural, Clone, Copy, Debug)]
pub enum Tier {
    /// Short default time to live; safe to lose.
    Temporary,
    /// Longer default time to live; kept alive by explicit renewal.
    Persistent,
    /// Scoped to the whole registry: all its entries share one expiry.
    Instance,
}

/// What the host tells the registry about the ledger: the current sequence
/// and the time to live given to new entries of each class.
#[derive(PartialEq, Eq, Structural, Clone, Copy, Debug)]
pub struct LedgerInfo {
    pub sequence: u32,
    pub temporary_ttl: u32,
    pub persistent_ttl: u32,
}

/// A keyed mapping of one tier; keys are unique.
pub struct TierStore {
    entries: Vec<Entry>,
}

impl TierStore {
    pub closed spec fn wf(&self) -> bool {
        unique_keys(self.entries@)
    }

    pub closed spec fn view(&self) -> Map<DataKey, Entry> {
        map_of(self.entries@)
    }

    pub fn empty() -> (r: TierStore)
        ensures
            r.wf(),
            r@ == Map::<DataKey, Entry>::empty(),
    {
        let r = TierStore { entries: Vec::new() };
        assert(r@ =~= Map::<DataKey, Entry>::empty());
        r
    }

    fn position(&self, k: &DataKey) -> (r: Option<usize>)
        requires
            self.wf(),
        ensures
            match r {
                Some(i) => i < self.entries@.len() && self.entries@[i as int].key == *k
                    && self@.contains_key(*k) && self@[*k] == self.entries@[i as int],
                None => !self@.contains_key(*k),
            },
    {
        let mut i: usize = 0;
        while i < self.entries.len()
            invariant
                self.wf(),
                i <= self.entries@.len(),
                forall|j: int| 0 <= j < i ==> self.entries@[j].key != *k,
            decreases self.entries@.len() - i,
        {
            if self.entries[i].key == *k {
                proof {
                    lemma_find_at(self.entries@, i as int);
                }
                return Some(i);
            }
            i = i + 1;
        }
        proof {
            lemma_find_absent(self.entries@, *k);
        }
        None
    }

    /// The entry under `k`, live or not.
    pub fn entry(&self, k: &DataKey) -> (r: Option<&Entry>)
        requires
            self.wf(),
        ensures
            match r {
                Some(e) => self@.contains_key(*k) && *e == self@[*k],
                None => !self@.contains_key(*k),
            },
    {
        match self.position(k) {
            Some(i) => Some(&self.entries[i]),
            None => None,
        }
    }

    /// Writes `value` under `key` with expiry `live_until`.
    pub fn put(&mut self, key: DataKey, value: Value, live_until: u64)
        requires
            old(self).wf(),
        ensures
            final(self).wf(),
            final(self)@ == old(self)@.insert(key, Entry { key, value, live_until }),
    {
        let ghost s0 = self.entries@;
        let pos = self.position(&key);
        match pos {
            Some(i) => {
                self.entries.set(i, Entry { key, value, live_until });
            },
            None => {
                self.entries.push(Entry { key, value, live_until });
            },
        }
        proof {
            let s1 = self.entries@;
            assert forall|a: int, b: int| 0 <= a < b < s1.len() implies s1[a].key != s1[b].key by {
                if pos is None {
                    lemma_find_all(s0, key);
                }
            }
            assert forall|k: DataKey| #[trigger] find(s1, k) == (if k == key {
                Some(Entry { key, value, live_until })
            } else {
                find(s0, k)
            }) by {
                lemma_find_all(s0, k);
                lemma_find_all(s1, k);
                if k == key {
                    match pos {
                        Some(i) => assert(s1[i as int].key == k),
                        None => assert(s1[s0.len() as int].key == k),
                    }
                } else {
                    if exists|i: int| 0 <= i < s0.len() && s0[i].key == k {
                        let i = choose|i: int| 0 <= i < s0.len() && s0[i].key == k;
                        assert(s1[i].key == k);
                    }
                }
            }
            assert(self@ =~= map_of(s0).insert(key, Entry { key, value, live_until }));
        }
    }

    /// Sets the expiry of the entry under `k`, which must be present.
    pub fn set_live_until(&mut self, k: &DataKey, live_until: u64)
        requires
            old(self).wf(),
            old(self)@.contains_key(*k),
        ensures
            final(self).wf(),
            final(self)@ == old(self)@.insert(
                *k,
                Entry { key: *k, value: old(self)@[*k].value, live_until },
            ),
    {
        let ghost s0 = self.entries@;
        let i = self.position(k).unwrap();
        self.entries[i].live_until = live_until;
        proof {
            let s1 = self.entries@;
            assert(s1 == s0.update(i as int, Entry { key: *k, value: s0[i as int].value, live_until }));
            assert forall|a: int, b: int| 0 <= a < b < s1.len() implies s1[a].key != s1[b].key by {
                assert(s1[a].key == s0[a].key && s1[b].key == s0[b].key);
            }
            assert forall|q: DataKey| #[trigger] find(s1, q) == (if q == *k {
                Some(Entry { key: *k, value: s0[i as int].value, live_until })
            } else {
                find(s0, q)
            }) by {
                lemma_find_all(s0, q);
                lemma_find_all(s1, q);
                if q != *k {
                    if exists|j: int| 0 <= j < s0.len() && s0[j].key == q {
                        let j = choose|j: int| 0 <= j < s0.len() && s0[j].key == q;
                        assert(s1[j] == s0[j]);
                    }
                    if exists|j: int| 0 <= j < s1.len() && s1[j].key == q {
                        let j = choose|j: int| 0 <= j < s1.len() && s1[j].key == q;
                        assert(s1[j] == s0[j]);
                    }
                } else {
                    assert(s1[i as int].key == q);
                }
            }
            assert(self@ =~= map_of(s0).insert(
                *k,
                Entry { key: *k, value: map_of(s0)[*k].value, live_until },
            ));
        }
    }
}

/// The expiry after a renewal request: an entry whose remaining time to live
/// is below `threshold` is kept alive until `now + bump`; a renewal never
/// shortens an expiry.
pub open spec fn renewed(live_until: u64, now: u32, threshold: u32, bump: u32) -> u64 {
    if (live_until - now) < threshold as int && (now + bump) > live_until as int {
        (now + bump) as u64
    } else {
        live_until
    }
}

/// Everything readable now in `b` is as in `a`: only expiries may differ.
pub open spec fn same_values(a: &Storage, b: &Storage) -> bool {
    &&& b.wf()
    &&& b.ledger() == a.ledger()
    &&& b.instance_live() == a.instance_live()
    &&& forall|u: Tier, q: DataKey| #[trigger] b.value_at(u, q) == a.value_at(u, q)
}

/// The registry's key-value store: three tiers whose entries are readable
/// until their expiry. Expiry is evaluated lazily against the ledger
/// sequence at read time; nothing is ever evicted.
pub struct Storage {
    ledger: LedgerInfo,
    temporary: TierStore,
    persistent: TierStore,
    instance: TierStore,
    instance_live_until: u64,
}

impl Storage {
    pub closed spec fn wf(&self) -> bool {
        &&& self.temporary.wf()
        &&& self.persistent.wf()
        &&& self.instance.wf()
    }

    pub closed spec fn ledger(&self) -> LedgerInfo {
        self.ledger
    }

    /// Every entry of tier `t`, expired or not.
    pub closed spec fn tier(&self, t: Tier) -> Map<DataKey, Entry> {
        match t {
            Tier::Temporary => self.temporary@,
            Tier::Persistent => self.persistent@,
            Tier::Instance => self.instance@,
        }
    }

    /// The last sequence at which the instance tier can be read.
    pub closed spec fn instance_live_until(&self) -> u64 {
        self.instance_live_until
    }

    pub open spec fn now(&self) -> u32 {
        self.ledger().sequence
    }

    pub open spec fn instance_live(&self) -> bool {
        self.now() <= self.instance_live_until()
    }

    pub open spec fn default_ttl(&self, t: Tier) -> u32 {
        match t {
            Tier::Temporary => self.ledger().temporary_ttl,
            _ => self.ledger().persistent_ttl,
        }
    }

    /// The entry under `k` in tier `t`, if it is present and not expired.
    pub open spec fn live_entry(&self, t: Tier, k: DataKey) -> Option<Entry> {
        let m = self.tier(t);
        if m.contains_key(k) && (if t == Tier::Instance {
            self.instance_live()
        } else {
            self.now() <= m[k].live_until
        }) {
            Some(m[k])
        } else {
            None
        }
    }

    /// The value readable under `k` in tier `t` at the current sequence.
    pub open spec fn value_at(&self, t: Tier, k: DataKey) -> Option<Value> {
        match self.live_entry(t, k) {
            Some(e) => Some(e.value),
            None => None,
        }
    }

    /// The expiry that `set` gives to the entry under `k`: a live entry
    /// keeps its own, a new or expired one gets the tier's default.
    pub open spec fn expiry_on_set(&self, t: Tier, k: DataKey) -> u64 {
        match self.live_entry(t, k) {
            Some(e) => e.live_until,
            None => (self.now() + self.default_ttl(t)) as u64,
        }
    }

    /// An empty store on the given ledger; the instance tier lives for the
    /// persistent default time to live.
    pub fn new(ledger: LedgerInfo) -> (r: Storage)
        ensures
            r.wf(),
            r.ledger() == ledger,
            forall|t: Tier| #[trigger] r.tier(t) == Map::<DataKey, Entry>::empty(),
            r.instance_live_until() == ledger.sequence + ledger.persistent_ttl,
    {
        Storage {
            ledger,
            temporary: TierStore::empty(),
            persistent: TierStore::empty(),
            instance: TierStore::empty(),
            instance_live_until: ledger.sequence as u64 + ledger.persistent_ttl as u64,
        }
    }

    pub fn ledger_info(&self) -> (r: LedgerInfo)
        ensures
            r == self.ledger(),
    {
        self.ledger
    }

    /// Moves the ledger to sequence `seq`; the sequence never goes back.
    pub fn set_sequence(&mut self, seq: u32)
        requires
            old(self).wf(),
            old(self).now() <= seq,
        ensures
            final(self).wf(),
            final(self).ledger() == (LedgerInfo { sequence: seq, ..old(self).ledger() }),
            forall|t: Tier| #[trigger] final(self).tier(t) == old(self).tier(t),
            final(self).instance_live_until() == old(self).instance_live_until(),
    {
        self.ledger.sequence = seq;
    }

    fn store(&self, t: Tier) -> (r: &TierStore)
        ensures
            r@ == self.tier(t),
            self.wf() ==> r.wf(),
    {
        match t {
            Tier::Temporary => &self.temporary,
            Tier::Persistent => &self.persistent,
            Tier::Instance => &self.instance,
        }
    }

    pub fn instance_is_live(&self) -> (r: bool)
        ensures
            r == self.instance_live(),
    {
        self.ledger.sequence as u64 <= self.instance_live_until
    }

    /// The live value under `k` in tier `t`.
    pub fn get(&self, t: Tier, k: &DataKey) -> (r: Option<&Value>)
        requires
            self.wf(),
        ensures
            match r {
                Some(v) => self.live_entry(t, *k) is Some && *v == self.live_entry(t, *k)->0.value,
                None => self.live_entry(t, *k) is None,
            },
    {
        match self.store(t).entry(k) {
            Some(e) => {
                let live = if t == Tier::Instance {
                    self.instance_is_live()
                } else {
                    self.ledger.sequence as u64 <= e.live_until
                };
                if live {
                    Some(&e.value)
                } else {
                    None
                }
            },
            None => None,
        }
    }

    /// The last sequence at which the entry under `k` in tier `t` can be
    /// read, if there is an entry, expired or not.
    pub fn tier_expiry(&self, t: Tier, k: &DataKey) -> (r: Option<u64>)
        requires
            self.wf(),
        ensures
            r == if !self.tier(t).contains_key(*k) {
                None::<u64>
            } else if t == Tier::Instance {
                Some(self.instance_live_until())
            } else {
                Some(self.tier(t)[*k].live_until)
            },
    {
        match self.store(t).entry(k) {
            Some(e) => if t == Tier::Instance {
                Some(self.instance_live_until)
            } else {
                Some(e.live_until)
            },
            None => None,
        }
    }

    /// Whether a live value stands under `k` in tier `t`.
    pub fn has(&self, t: Tier, k: &DataKey) -> (r: bool)
        requires
            self.wf(),
        ensures
            r == self.live_entry(t, *k) is Some,
    {
        self.get(t, k).is_some()
    }

    /// Writes `v` under `k` in tier `t`.
    pub fn set(&mut self, t: Tier, k: DataKey, v: Value)
        requires
            old(self).wf(),
        ensures
            final(self).wf(),
            final(self).ledger() == old(self).ledger(),
            final(self).instance_live_until() == old(self).instance_live_until(),
            final(self).tier(t) == old(self).tier(t).insert(
                k,
                Entry { key: k, value: v, live_until: old(self).expiry_on_set(t, k) },
            ),
            forall|u: Tier| u != t ==> #[trigger] final(self).tier(u) == old(self).tier(u),
            t != Tier::Instance || old(self).instance_live() ==> final(self).value_at(t, k) == Some(v),
            forall|u: Tier, q: DataKey|
                !(u == t && q == k) ==> #[trigger] final(self).value_at(u, q) == old(self).value_at(u, q),
    {
        let live_until = match self.store(t).entry(&k) {
            Some(e) => {
                let live = if t == Tier::Instance {
                    self.instance_is_live()
                } else {
                    self.ledger.sequence as u64 <= e.live_until
                };
                if live {
                    e.live_until
                } else {
                    self.ledger.sequence as u64 + self.default_ttl_of(t) as u64
                }
            },
            None => self.ledger.sequence as u64 + self.default_ttl_of(t) as u64,
        };
        match t {
            Tier::Temporary => self.temporary.put(k, v, live_until),
            Tier::Persistent => self.persistent.put(k, v, live_until),
            Tier::Instance => self.instance.put(k, v, live_until),
        }
    }

    fn default_ttl_of(&self, t: Tier) -> (r: u32)
        ensures
            r == self.default_ttl(t),
    {
        match t {
            Tier::Temporary => self.ledger.temporary_ttl,
            _ => self.ledger.persistent_ttl,
        }
    }

    /// Renews the entry under `k` in tier `t`: if it is live and its
    /// remaining time to live is below `threshold`, it stays live until the
    /// current sequence plus `bump`. An absent or expired entry is left as
    /// it is. In the instance tier, whose entries share one expiry, the whole
    /// tier is renewed, whatever `k`.
    pub fn extend_ttl(&mut self, t: Tier, k: &DataKey, threshold: u32, bump: u32)
        requires
            old(self).wf(),
        ensures
            final(self).wf(),
            final(self).ledger() == old(self).ledger(),
            t == Tier::Instance ==> {
                &&& forall|u: Tier| #[trigger] final(self).tier(u) == old(self).tier(u)
                &&& final(self).instance_live_until() == if old(self).instance_live() {
                    renewed(old(self).instance_live_until(), old(self).now(), threshold, bump)
                } else {
                    old(self).instance_live_until()
                }
            },
            t != Tier::Instance ==> {
                &&& final(self).instance_live_until() == old(self).instance_live_until()
                &&& forall|u: Tier| u != t ==> #[trigger] final(self).tier(u) == old(self).tier(u)
                &&& final(self).tier(t) == match old(self).live_entry(t, *k) {
                    Some(e) => old(self).tier(t).insert(
                        *k,
                        Entry {
                            key: *k,
                            value: e.value,
                            live_until: renewed(e.live_until, old(self).now(), threshold, bump),
                        },
                    ),
                    None => old(self).tier(t),
                }
            },
            final(self).instance_live() == old(self).instance_live(),
            forall|u: Tier, q: DataKey| #[trigger] final(self).value_at(u, q) == old(self).value_at(u, q),
    {
        let now = self.ledger.sequence;
        if t == Tier::Instance {
            if self.instance_is_live() {
                self.instance_live_until = renew(self.instance_live_until, now, threshold, bump);
            }
            return;
        }
        let current = match self.store(t).entry(k) {
            Some(e) => if now as u64 <= e.live_until {
                Some(e.live_until)
            } else {
                None
            },
            None => None,
        };
        if let Some(live_until) = current {
            let next = renew(live_until, now, threshold, bump);
            match t {
                Tier::Temporary => self.temporary.set_live_until(k, next),
                _ => self.persistent.set_live_until(k, next),
            }
        }
    }
}

fn renew(live_until: u64, now: u32, threshold: u32, bump: u32) -> (r: u64)
    requires
        now <= live_until,
    ensures
        r == renewed(live_until, now, threshold, bump),
{
    let target = now as u64 + bump as u64;
    if live_until - (now as u64) < threshold as u64 && target > live_until {
        target
    } else {
        live_until
    }
}

/// The mapping that the entries `s` hold.
spec fn map_of(s: Seq<Entry>) -> Map<DataKey, Entry> {
    Map::new(|k: DataKey| find(s, k) is Some, |k: DataKey| find(s, k)->0)
}

} // verus!

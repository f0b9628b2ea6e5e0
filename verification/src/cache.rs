//! Maps whose entries end at a point in time.

use vstd::prelude::*;
use crate::text::same;

verus! {

/// A value that holds until a point in time, in milliseconds.
pub struct Cached<V> {
    pub value: V,
    pub expires: u128,
}

/// The size above which a cache drops what has expired.
pub const CACHE_SWEEP_SIZE: usize = 512;

/// A map from texts to values that expire. No key occurs twice.
pub struct TtlCache<V> {
    entries: Vec<(String, Cached<V>)>,
}

/// The map that a list of entries makes.
pub open spec fn entries_map<V>(s: Seq<(String, Cached<V>)>) -> Map<Seq<char>, Cached<V>>
    decreases s.len(),
{
    if s.len() == 0 {
        Map::empty()
    } else {
        entries_map(s.drop_last()).insert(s.last().0@, s.last().1)
    }
}

/// Whether no two entries have the same key.
pub open spec fn distinct_keys<V>(s: Seq<(String, Cached<V>)>) -> bool {
    forall|i: int, j: int| 0 <= i < j < s.len() ==> #[trigger] s[i].0@ != #[trigger] s[j].0@
}

/// The entries that hold after a point in time.
pub open spec fn live_part<V>(m: Map<Seq<char>, Cached<V>>, now: u64) -> Map<Seq<char>, Cached<V>> {
    Map::new(|k: Seq<char>| m.dom().contains(k) && m[k].expires > now, |k: Seq<char>| m[k])
}

/// The value under a key, if it is there and holds after a point in time.
pub open spec fn live_value<V>(m: Map<Seq<char>, Cached<V>>, key: Seq<char>, now: u64) -> Option<V> {
    if m.dom().contains(key) && m[key].expires > now {
        Some(m[key].value)
    } else {
        None
    }
}

/// A map after one entry is stored: swept of what has expired where it has grown too large.
pub open spec fn stored<V>(
    m: Map<Seq<char>, Cached<V>>,
    key: Seq<char>,
    c: Cached<V>,
    now: u64,
) -> Map<Seq<char>, Cached<V>> {
    let grown = m.insert(key, c);
    if grown.dom().len() > CACHE_SWEEP_SIZE {
        live_part(grown, now)
    } else {
        grown
    }
}

proof fn lemma_entries_map<V>(s: Seq<(String, Cached<V>)>)
    requires
        distinct_keys(s),
    ensures
        entries_map(s).dom().finite(),
        entries_map(s).dom().len() == s.len(),
        forall|i: int|
            0 <= i < s.len() ==> entries_map(s).dom().contains(#[trigger] s[i].0@) && entries_map(
                s,
            )[s[i].0@] == s[i].1,
        forall|k: Seq<char>| #[trigger]
            entries_map(s).dom().contains(k) ==> exists|i: int|
                0 <= i < s.len() && #[trigger] s[i].0@ == k,
    decreases s.len(),
{
    if s.len() > 0 {
        let t = s.drop_last();
        assert(distinct_keys(t)) by {
            assert forall|i: int, j: int| 0 <= i < j < t.len() implies #[trigger] t[i].0@
                != #[trigger] t[j].0@ by {
                assert(s[i].0@ != s[j].0@);
            }
        }
        lemma_entries_map(t);
        assert(!entries_map(t).dom().contains(s.last().0@)) by {
            if entries_map(t).dom().contains(s.last().0@) {
                let i = choose|i: int| 0 <= i < t.len() && #[trigger] t[i].0@ == s.last().0@;
                assert(s[i].0@ != s[s.len() - 1].0@);
            }
        }
        assert forall|i: int| 0 <= i < s.len() implies entries_map(s).dom().contains(
            #[trigger] s[i].0@,
        ) && entries_map(s)[s[i].0@] == s[i].1 by {
            if i < t.len() {
                assert(t[i] == s[i]);
                assert(s[i].0@ != s[s.len() - 1].0@);
            }
        }
        assert forall|k: Seq<char>| #[trigger] entries_map(s).dom().contains(k) implies exists|
            i: int,
        |
            0 <= i < s.len() && #[trigger] s[i].0@ == k by {
            if k == s.last().0@ {
                assert(s[s.len() - 1].0@ == k);
            } else {
                assert(entries_map(t).dom().contains(k));
                let i = choose|i: int| 0 <= i < t.len() && #[trigger] t[i].0@ == k;
                assert(s[i].0@ == k);
            }
        }
    }
}

proof fn lemma_entries_remove<V>(s: Seq<(String, Cached<V>)>, at: int)
    requires
        distinct_keys(s),
        0 <= at < s.len(),
    ensures
        distinct_keys(s.remove(at)),
        entries_map(s.remove(at)) == entries_map(s).remove(s[at].0@),
{
    let t = s.remove(at);
    assert forall|i: int, j: int| 0 <= i < j < t.len() implies #[trigger] t[i].0@
        != #[trigger] t[j].0@ by {
        let a = if i < at {
            i
        } else {
            i + 1
        };
        let b = if j < at {
            j
        } else {
            j + 1
        };
        assert(s[a].0@ != s[b].0@);
    }
    lemma_entries_map(s);
    lemma_entries_map(t);
    assert forall|k: Seq<char>| #[trigger]
        entries_map(t).dom().contains(k) == entries_map(s).remove(s[at].0@).dom().contains(k) by {
        if entries_map(t).dom().contains(k) {
            let i = choose|i: int| 0 <= i < t.len() && #[trigger] t[i].0@ == k;
            let a = if i < at {
                i
            } else {
                i + 1
            };
            assert(s[a].0@ == k);
            assert(a != at);
            if a < at {
                assert(s[a].0@ != s[at].0@);
            } else {
                assert(s[at].0@ != s[a].0@);
            }
        }
        if entries_map(s).remove(s[at].0@).dom().contains(k) {
            let a = choose|a: int| 0 <= a < s.len() && #[trigger] s[a].0@ == k;
            let i = if a < at {
                a
            } else {
                a - 1
            };
            assert(t[i].0@ == k);
        }
    }
    assert forall|k: Seq<char>| #[trigger] entries_map(t).dom().contains(k) implies entries_map(
        t,
    )[k] == entries_map(s)[k] by {
        let i = choose|i: int| 0 <= i < t.len() && #[trigger] t[i].0@ == k;
        let a = if i < at {
            i
        } else {
            i + 1
        };
        assert(s[a].0@ == k);
    }
    assert(entries_map(t) =~= entries_map(s).remove(s[at].0@));
}

impl<V> TtlCache<V> {
    /// No key occurs twice.
    pub closed spec fn wf(&self) -> bool {
        distinct_keys(self.entries@)
    }

    /// What is stored under each key.
    pub closed spec fn view(&self) -> Map<Seq<char>, Cached<V>> {
        entries_map(self.entries@)
    }

    /// The empty cache.
    pub fn new() -> (r: Self)
        ensures
            r.wf(),
            r@ == Map::<Seq<char>, Cached<V>>::empty(),
    {
        TtlCache { entries: Vec::new() }
    }

    fn find(&self, key: &str) -> (r: Option<usize>)
        requires
            self.wf(),
        ensures
            match r {
                Some(i) => i < self.entries@.len() && self.entries@[i as int].0@ == key@
                    && self@.dom().contains(key@) && self@[key@] == self.entries@[i as int].1,
                None => !self@.dom().contains(key@),
            },
    {
        proof {
            lemma_entries_map(self.entries@);
        }
        let mut i: usize = 0;
        while i < self.entries.len()
            invariant
                i <= self.entries@.len(),
                forall|k: int| 0 <= k < i ==> #[trigger] self.entries@[k].0@ != key@,
                forall|k: int|
                    0 <= k < self.entries@.len() ==> self@.dom().contains(
                        #[trigger] self.entries@[k].0@,
                    ) && self@[self.entries@[k].0@] == self.entries@[k].1,
            decreases self.entries@.len() - i,
        {
            if same(self.entries[i].0.as_str(), key) {
                return Some(i);
            }
            i = i + 1;
        }
        None
    }

    /// What is stored under a key, expired or not.
    pub fn lookup(&self, key: &str) -> (r: Option<&Cached<V>>)
        requires
            self.wf(),
        ensures
            match r {
                Some(c) => self@.dom().contains(key@) && *c == self@[key@],
                None => !self@.dom().contains(key@),
            },
    {
        match self.find(key) {
            Some(i) => Some(&self.entries[i].1),
            None => None,
        }
    }

    /// The value under a key, unless it has expired.
    pub fn get(&self, key: &str, now: u64) -> (r: Option<&V>)
        requires
            self.wf(),
        ensures
            match r {
                Some(v) => live_value(self@, key@, now) == Some(*v),
                None => live_value(self@, key@, now) is None,
            },
    {
        match self.find(key) {
            Some(i) => if self.entries[i].1.expires > now as u128 {
                Some(&self.entries[i].1.value)
            } else {
                None
            },
            None => None,
        }
    }

    /// Drops what is stored under a key.
    pub fn remove(&mut self, key: &str)
        requires
            old(self).wf(),
        ensures
            final(self).wf(),
            final(self)@ == old(self)@.remove(key@),
    {
        match self.find(key) {
            Some(i) => {
                proof {
                    lemma_entries_remove(self.entries@, i as int);
                }
                let _ = self.entries.remove(i);
            },
            None => {
                assert(self@.remove(key@) =~= self@);
            },
        }
    }

    /// Stores a value under a key, in place of what was there.
    pub fn insert(&mut self, key: &str, value: V, expires: u128)
        requires
            old(self).wf(),
        ensures
            final(self).wf(),
            final(self)@ == old(self)@.insert(key@, Cached { value, expires }),
    {
        let ghost before = self@;
        self.remove(key);
        let ghost s = self.entries@;
        let entry = (key.to_owned(), Cached { value, expires });
        self.entries.push(entry);
        proof {
            let t = self.entries@;
            assert(t.drop_last() =~= s);
            lemma_entries_map(s);
            assert forall|i: int, j: int| 0 <= i < j < t.len() implies #[trigger] t[i].0@
                != #[trigger] t[j].0@ by {
                assert(t[i] == s[i]);
                if j < s.len() {
                    assert(t[j] == s[j]);
                } else {
                    assert(entries_map(s).dom().contains(s[i].0@));
                }
            }
            assert(before.remove(key@).insert(key@, entry.1) =~= before.insert(key@, entry.1));
        }
    }

    /// Drops what has expired.
    pub fn retain_live(&mut self, now: u64)
        requires
            old(self).wf(),
        ensures
            final(self).wf(),
            final(self)@ == live_part(old(self)@, now),
    {
        let ghost before = self.entries@;
        let mut i: usize = self.entries.len();
        proof {
            lemma_entries_map(before);
        }
        while i > 0
            invariant
                i <= self.entries@.len(),
                distinct_keys(self.entries@),
                distinct_keys(before),
                forall|k: int| i <= k < self.entries@.len() ==> (#[trigger] self.entries@[k]).1.expires > now,
                forall|k: Seq<char>| #[trigger]
                    entries_map(self.entries@).dom().contains(k) ==> entries_map(
                        before,
                    ).dom().contains(k) && entries_map(self.entries@)[k] == entries_map(before)[k],
                forall|k: Seq<char>| #[trigger]
                    entries_map(before).dom().contains(k) && entries_map(before)[k].expires > now
                        ==> entries_map(self.entries@).dom().contains(k),
            decreases i,
        {
            i = i - 1;
            if self.entries[i].1.expires <= now as u128 {
                let ghost s = self.entries@;
                proof {
                    lemma_entries_map(s);
                    lemma_entries_remove(s, i as int);
                }
                let _ = self.entries.remove(i);
                assert forall|k: int| i <= k < self.entries@.len() implies (
                #[trigger] self.entries@[k]).1.expires > now by {
                    assert(self.entries@[k] == s[k + 1]);
                }
                assert forall|k: Seq<char>| #[trigger]
                    entries_map(before).dom().contains(k) && entries_map(before)[k].expires
                        > now implies entries_map(self.entries@).dom().contains(k) by {
                    assert(entries_map(s).dom().contains(k));
                    assert(entries_map(s)[s[i as int].0@] == s[i as int].1);
                }
            }
        }
        proof {
            let s = self.entries@;
            lemma_entries_map(s);
            assert forall|k: Seq<char>| #[trigger]
                entries_map(s).dom().contains(k) implies entries_map(s)[k].expires > now by {
                let j = choose|j: int| 0 <= j < s.len() && #[trigger] s[j].0@ == k;
                assert(s[j].1.expires > now);
            }
            assert(entries_map(s) =~= live_part(entries_map(before), now));
        }
    }

    /// Stores a value under a key, and sweeps the cache where it has grown too large.
    pub fn store(&mut self, key: &str, value: V, expires: u128, now: u64)
        requires
            old(self).wf(),
        ensures
            final(self).wf(),
            final(self)@ == stored(old(self)@, key@, Cached { value, expires }, now),
    {
        self.insert(key, value, expires);
        proof {
            lemma_entries_map(self.entries@);
        }
        if self.entries.len() > CACHE_SWEEP_SIZE {
            self.retain_live(now);
        }
    }

    /// Drops everything.
    pub fn clear(&mut self)
        ensures
            final(self).wf(),
            final(self)@ == Map::<Seq<char>, Cached<V>>::empty(),
    {
        self.entries.clear();
    }
}

/// An entry is found until the time at which it ends, and never from then on. Storing another one does
/// not take it away before.
pub proof fn lemma_entries_live<V>(
    m: Map<Seq<char>, Cached<V>>,
    key: Seq<char>,
    other: Seq<char>,
    c: Cached<V>,
    now: u64,
)
    ensures
        c.expires > now ==> live_value(m.insert(key, c), key, now) == Some(c.value),
        c.expires <= now ==> live_value(m.insert(key, c), key, now) is None,
        live_value(m.remove(key), key, now) is None,
        other != key ==> live_value(stored(m, key, c, now), other, now) == live_value(m, other, now),
        live_value(live_part(m, now), other, now) == live_value(m, other, now),
        live_part(m, now).dom().contains(other) ==> m[other].expires > now,
{
}

/// Entries that are over are kept while there are few, and swept out once there are more than 512.
pub proof fn lemma_sweeping<V>(m: Map<Seq<char>, Cached<V>>, key: Seq<char>, c: Cached<V>, now: u64)
    ensures
        m.insert(key, c).dom().len() <= 512 ==> stored(m, key, c, now) == m.insert(key, c),
        m.insert(key, c).dom().len() > 512 ==> forall|k: Seq<char>|
            stored(m, key, c, now).dom().contains(k) ==> (#[trigger] m.insert(key, c)[k]).expires > now,
{
}

} // verus!

//! Tables that hold one value for each key, and tables whose values expire.
use vstd::prelude::*;

verus! {

/// What a table can be searched by. Two keys are the same if their views are.
pub trait Key: View + Sized {
    /// Whether the keys are the same.
    fn same(&self, other: &Self) -> (same: bool)
        ensures
            same == (self@ == other@),
    ;
}

/// A key with its value.
pub struct Entry<K, V> {
    key: K,
    value: V,
}

/// A table with one value for each key.
pub struct Table<K: Key, V> {
    entries: Vec<Entry<K, V>>,
}

/// Some entry has the key.
spec fn holds<K: Key, V>(entries: Seq<Entry<K, V>>, key: K::V) -> bool {
    exists|i: int| 0 <= i < entries.len() && (#[trigger] entries[i]).key@ == key
}

/// The value of the entry with the key.
spec fn held<K: Key, V>(entries: Seq<Entry<K, V>>, key: K::V) -> V {
    entries[choose|i: int| 0 <= i < entries.len() && (#[trigger] entries[i]).key@ == key].value
}

/// No key occurs twice.
spec fn distinct<K: Key, V>(entries: Seq<Entry<K, V>>) -> bool {
    forall|i: int, j: int|
        0 <= i < entries.len() && 0 <= j < entries.len() && (#[trigger] entries[i]).key@ == (
        #[trigger] entries[j]).key@ ==> i == j
}

impl<K: Key, V> View for Table<K, V> {
    type V = Map<K::V, V>;

    closed spec fn view(&self) -> Map<K::V, V> {
        Map::new(|key: K::V| holds(self.entries@, key), |key: K::V| held(self.entries@, key))
    }
}

proof fn held_at<K: Key, V>(entries: Seq<Entry<K, V>>, i: int)
    requires
        distinct(entries),
        0 <= i < entries.len(),
    ensures
        holds(entries, entries[i].key@),
        held(entries, entries[i].key@) == entries[i].value,
{
    let j = choose|j: int|
        0 <= j < entries.len() && (#[trigger] entries[j]).key@ == entries[i].key@;
    assert(entries[i].key@ == entries[i].key@);
    assert(j == i);
}

impl<K: Key, V> Table<K, V> {
    /// No key occurs twice.
    pub closed spec fn wf(&self) -> bool {
        distinct(self.entries@)
    }

    /// How many entries there are.
    pub closed spec fn size(&self) -> nat {
        self.entries@.len()
    }

    /// An empty table.
    pub fn new() -> (table: Self)
        ensures
            table.wf(),
            table@ == Map::<K::V, V>::empty(),
    {
        let table = Table { entries: Vec::new() };
        assert(table@ =~= Map::<K::V, V>::empty());
        table
    }

    fn position(&self, key: &K) -> (at: Option<usize>)
        ensures
            match at {
                Some(i) => i < self.entries@.len() && self.entries@[i as int].key@ == key@,
                None => !holds(self.entries@, key@),
            },
    {
        let mut i: usize = 0;
        while i < self.entries.len()
            invariant
                i <= self.entries@.len(),
                forall|j: int| 0 <= j < i ==> (#[trigger] self.entries@[j]).key@ != key@,
            decreases self.entries@.len() - i,
        {
            if self.entries[i].key.same(key) {
                return Some(i);
            }
            i = i + 1;
        }
        None
    }

    /// The value for the key.
    pub fn get(&self, key: &K) -> (value: Option<&V>)
        requires
            self.wf(),
        ensures
            match value {
                Some(v) => self@.dom().contains(key@) && *v == self@[key@],
                None => !self@.dom().contains(key@),
            },
    {
        match self.position(key) {
            Some(i) => {
                proof {
                    held_at(self.entries@, i as int);
                }
                Some(&self.entries[i].value)
            },
            None => None,
        }
    }

    /// Sets the value for the key.
    pub fn insert(&mut self, key: K, value: V)
        requires
            old(self).wf(),
        ensures
            final(self).wf(),
            final(self)@ == old(self)@.insert(key@, value),
    {
        self.remove(&key);
        let ghost before = self.entries@;
        let ghost before_map = self@;
        let ghost k = key@;
        assert(!before_map.dom().contains(k));
        assert(!holds(before, k));
        self.entries.push(Entry { key, value });
        proof {
            let after = self.entries@;
            assert(after =~= before.push(after[before.len() as int]));
            assert(distinct(after)) by {
                assert forall|i: int, j: int|
                    0 <= i < after.len() && 0 <= j < after.len() && (#[trigger] after[i]).key@ == (
                    #[trigger] after[j]).key@ implies i == j by {
                    if i < before.len() && j < before.len() {
                        assert(before[i].key@ == before[j].key@);
                    } else if i < before.len() {
                        assert(before[i].key@ == k);
                        assert(holds(before, k));
                    } else if j < before.len() {
                        assert(before[j].key@ == k);
                        assert(holds(before, k));
                    }
                }
            }
            assert forall|x: K::V| holds(after, x) == (holds(before, x) || x == k) by {
                if holds(before, x) {
                    let i = choose|i: int| 0 <= i < before.len() && (#[trigger] before[i]).key@ == x;
                    assert(after[i].key@ == x);
                }
                if holds(after, x) {
                    let i = choose|i: int| 0 <= i < after.len() && (#[trigger] after[i]).key@ == x;
                    if i < before.len() {
                        assert(before[i].key@ == x);
                    }
                }
                if x == k {
                    assert(after[before.len() as int].key@ == x);
                }
            }
            assert forall|x: K::V| holds(after, x) implies held(after, x) == (if x == k {
                value
            } else {
                held(before, x)
            }) by {
                if x == k {
                    held_at(after, before.len() as int);
                } else {
                    let i = choose|i: int| 0 <= i < before.len() && (#[trigger] before[i]).key@ == x;
                    assert(holds(before, x));
                    held_at(before, i);
                    held_at(after, i);
                }
            }
            assert(self@ =~= before_map.insert(k, value));
            assert(self@ =~= old(self)@.insert(k, value));
        }
    }

    /// Takes the key out.
    pub fn remove(&mut self, key: &K)
        requires
            old(self).wf(),
        ensures
            final(self).wf(),
            final(self)@ == old(self)@.remove(key@),
            final(self).size() <= old(self).size(),
    {
        match self.position(key) {
            None => {
                assert(self@ =~= old(self)@.remove(key@));
            },
            Some(at) => {
                let ghost before = self.entries@;
                let _ = self.entries.remove(at);
                proof {
                    let after = self.entries@;
                    let k = key@;
                    removed_entry(before, after, at as int);
                    assert(self@ =~= old(self)@.remove(k));
                }
            },
        }
    }

    /// Takes some key out, with its value.
    pub fn pop(&mut self) -> (taken: Option<(K, V)>)
        requires
            old(self).wf(),
        ensures
            final(self).wf(),
            match taken {
                Some((key, value)) => {
                    &&& old(self)@.dom().contains(key@)
                    &&& old(self)@[key@] == value
                    &&& final(self)@ == old(self)@.remove(key@)
                    &&& final(self).size() < old(self).size()
                },
                None => old(self)@ == Map::<K::V, V>::empty() && final(self)@ == old(self)@,
            },
    {
        let ghost before = self.entries@;
        match self.entries.pop() {
            None => {
                assert(old(self)@ =~= Map::<K::V, V>::empty());
                None
            },
            Some(entry) => {
                proof {
                    let last = before.len() - 1;
                    assert(self.entries@ =~= before.remove(last));
                    removed_entry(before, self.entries@, last);
                    held_at(before, last);
                    assert(self@ =~= old(self)@.remove(entry.key@));
                }
                Some((entry.key, entry.value))
            },
        }
    }
}

proof fn removed_entry<K: Key, V>(before: Seq<Entry<K, V>>, after: Seq<Entry<K, V>>, at: int)
    requires
        distinct(before),
        0 <= at < before.len(),
        after == before.remove(at),
    ensures
        distinct(after),
        forall|x: K::V| #[trigger]
            holds(after, x) == (holds(before, x) && x != before[at].key@),
        forall|x: K::V| #[trigger] holds(after, x) ==> held(after, x) == held(before, x),
{
    let k = before[at].key@;
    assert(forall|i: int| 0 <= i < at ==> after[i] == before[i]);
    assert(forall|i: int| at <= i < after.len() ==> after[i] == before[i + 1]);
    assert(distinct(after)) by {
        assert forall|i: int, j: int|
            0 <= i < after.len() && 0 <= j < after.len() && (#[trigger] after[i]).key@ == (
            #[trigger] after[j]).key@ implies i == j by {
            let bi = if i < at {
                i
            } else {
                i + 1
            };
            let bj = if j < at {
                j
            } else {
                j + 1
            };
            assert(before[bi].key@ == before[bj].key@);
        }
    }
    assert forall|x: K::V| #[trigger] holds(after, x) == (holds(before, x) && x != k) by {
        if holds(after, x) {
            let i = choose|i: int| 0 <= i < after.len() && (#[trigger] after[i]).key@ == x;
            let bi = if i < at {
                i
            } else {
                i + 1
            };
            assert(before[bi].key@ == x);
            if x == k {
                assert(before[bi].key@ == before[at].key@);
            }
        }
        if holds(before, x) && x != k {
            let i = choose|i: int| 0 <= i < before.len() && (#[trigger] before[i]).key@ == x;
            let ai = if i < at {
                i
            } else {
                i - 1
            };
            assert(i != at);
            assert(after[ai].key@ == x);
        }
    }
    assert forall|x: K::V| #[trigger] holds(after, x) implies held(after, x) == held(before, x) by {
        let i = choose|i: int| 0 <= i < after.len() && (#[trigger] after[i]).key@ == x;
        let bi = if i < at {
            i
        } else {
            i + 1
        };
        held_at(after, i);
        held_at(before, bi);
    }
}

// ---------------------------------------------------------------------------
// Values that expire
// ---------------------------------------------------------------------------
/// Nanoseconds in a second.
pub const SECOND: u64 = 1_000_000_000;

/// The latest moment at which a table takes a value.
pub const LAST_MOMENT: u64 = 0x8000_0000_0000_0000;

/// A value, and the moment at which it expires.
pub struct Timed<V> {
    pub value: V,
    pub expires_at: u64,
}

/// A table whose values expire. Moments are nanoseconds since some start.
pub struct TimedTable<K: Key, V: View> {
    table: Table<K, Timed<V>>,
}

spec fn timed_view<V: View>(timed: Timed<V>) -> Timed<V::V> {
    Timed { value: timed.value@, expires_at: timed.expires_at }
}

impl<K: Key, V: View> View for TimedTable<K, V> {
    type V = Map<K::V, Timed<V::V>>;

    closed spec fn view(&self) -> Map<K::V, Timed<V::V>> {
        self.table@.map_values(|timed: Timed<V>| timed_view(timed))
    }
}

/// The value for a key that has not expired.
pub open spec fn current<X, V>(m: Map<X, Timed<V>>, key: X, now: u64) -> Option<V> {
    if m.dom().contains(key) && now < m[key].expires_at {
        Some(m[key].value)
    } else {
        None
    }
}

/// The entries that have not expired.
pub open spec fn unexpired<X, V>(m: Map<X, Timed<V>>, now: u64) -> Map<X, Timed<V>> {
    Map::new(|key: X| m.dom().contains(key) && now < m[key].expires_at, |key: X| m[key])
}

/// The table once a value was given that lives for `ttl` seconds: nothing
/// happens if that is no time at all. What has expired goes.
pub open spec fn stored<X, V>(m: Map<X, Timed<V>>, key: X, value: V, ttl: u32, now: u64) -> Map<
    X,
    Timed<V>,
> {
    if ttl == 0 {
        m
    } else {
        unexpired(m, now).insert(
            key,
            Timed { value, expires_at: (now + ttl * SECOND) as u64 },
        )
    }
}

impl<K: Key, V: View> TimedTable<K, V> {
    /// No key occurs twice.
    pub closed spec fn wf(&self) -> bool {
        self.table.wf()
    }

    /// An empty table.
    pub fn new() -> (table: Self)
        ensures
            table.wf(),
            table@ == Map::<K::V, Timed<V::V>>::empty(),
    {
        let table = TimedTable { table: Table::new() };
        assert(table@ =~= Map::<K::V, Timed<V::V>>::empty());
        table
    }

    /// The value for the key, unless it has expired.
    pub fn read(&self, key: &K, now: u64) -> (value: Option<&V>)
        requires
            self.wf(),
        ensures
            match value {
                Some(v) => current(self@, key@, now) == Some(v@),
                None => current(self@, key@, now) is None,
            },
    {
        match self.table.get(key) {
            Some(timed) => if now < timed.expires_at {
                Some(&timed.value)
            } else {
                None
            },
            None => None,
        }
    }

    /// Gives a value that lives for `ttl` seconds.
    pub fn write(&mut self, key: K, value: V, ttl: u32, now: u64)
        requires
            old(self).wf(),
            now <= LAST_MOMENT,
        ensures
            final(self).wf(),
            final(self)@ == stored(old(self)@, key@, value@, ttl, now),
    {
        if ttl == 0 {
            return ;
        }
        let ghost all = self.table@;
        let mut kept: Table<K, Timed<V>> = Table::new();
        loop
            invariant
                self.table.wf(),
                kept.wf(),
                forall|x: K::V|
                    #![trigger self.table@.dom().contains(x)]
                    self.table@.dom().contains(x) ==> all.dom().contains(x) && self.table@[x]
                        == all[x],
                forall|x: K::V|
                    #![trigger kept@.dom().contains(x)]
                    kept@.dom().contains(x) <==> (all.dom().contains(x)
                        && !self.table@.dom().contains(x) && now < all[x].expires_at),
                forall|x: K::V|
                    #![trigger kept@[x]]
                    kept@.dom().contains(x) ==> kept@[x] == all[x],
            ensures
                kept.wf(),
                kept@ == unexpired(all, now),
            decreases self.table.size(),
        {
            match self.table.pop() {
                None => {
                    assert(kept@ =~= unexpired(all, now));
                    break;
                },
                Some((k, timed)) => {
                    if now < timed.expires_at {
                        kept.insert(k, timed);
                    }
                },
            }
        }
        kept.insert(key, Timed { value, expires_at: now + (ttl as u64) * SECOND });
        self.table = kept;
        assert(self@ =~= stored(old(self)@, key@, value@, ttl, now));
    }
}

/// What was written is read until it expires, and not from then on.
pub proof fn written_value_is_read<X, V>(
    m: Map<X, Timed<V>>,
    key: X,
    value: V,
    ttl: u32,
    now: u64,
    later: u64,
)
    requires
        0 < ttl,
        now <= LAST_MOMENT,
    ensures
        current(stored(m, key, value, ttl, now), key, later) == (if later < now + ttl * SECOND {
            Some(value)
        } else {
            None
        }),
{
}

/// Writing one key leaves every other value readable for as long as it lives.
pub proof fn other_values_stay<X, V>(
    m: Map<X, Timed<V>>,
    key: X,
    value: V,
    ttl: u32,
    now: u64,
    other: X,
    later: u64,
)
    requires
        other != key,
        now <= later,
    ensures
        current(stored(m, key, value, ttl, now), other, later) == current(m, other, later),
{
}

/// A value that lives for no time is not kept.
pub proof fn fleeting_value_is_not_kept<X, V>(
    m: Map<X, Timed<V>>,
    key: X,
    value: V,
    now: u64,
)
    ensures
        stored(m, key, value, 0, now) == m,
{
}

} // verus!

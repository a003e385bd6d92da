//! A map from setting names to setting values, both texts.
//!
//! The entries are kept in the order in which their keys were first
//! inserted; no key occurs twice.
use vstd::prelude::*;

verus! {

/// The texts of a list of entries.
pub open spec fn pair_views(es: Seq<(String, String)>) -> Seq<(Seq<char>, Seq<char>)> {
    es.map_values(|p: (String, String)| (p.0@, p.1@))
}

/// The keys of `ps`, in order.
pub open spec fn keys_of(ps: Seq<(Seq<char>, Seq<char>)>) -> Seq<Seq<char>> {
    ps.map_values(|p: (Seq<char>, Seq<char>)| p.0)
}

/// Whether no key occurs twice among `ps`.
pub open spec fn distinct_keys(ps: Seq<(Seq<char>, Seq<char>)>) -> bool {
    forall|i: int, j: int|
        0 <= i < ps.len() && 0 <= j < ps.len() && i != j ==> #[trigger] ps[i].0 != #[trigger] ps[j].0
}

/// Whether `k` is the key of one of `ps`.
pub open spec fn has_key(ps: Seq<(Seq<char>, Seq<char>)>, k: Seq<char>) -> bool {
    exists|i: int| 0 <= i < ps.len() && #[trigger] ps[i].0 == k
}

/// The map that a list of entries with distinct keys stands for.
pub open spec fn pairs_map(ps: Seq<(Seq<char>, Seq<char>)>) -> Map<Seq<char>, Seq<char>> {
    Map::new(
        |k: Seq<char>| has_key(ps, k),
        |k: Seq<char>| ps[choose|i: int| 0 <= i < ps.len() && #[trigger] ps[i].0 == k].1,
    )
}

/// An entry of a list with distinct keys is what the map holds for its key.
pub proof fn lemma_pairs_map_at(ps: Seq<(Seq<char>, Seq<char>)>, i: int)
    requires
        distinct_keys(ps),
        0 <= i < ps.len(),
    ensures
        pairs_map(ps).contains_key(ps[i].0),
        pairs_map(ps)[ps[i].0] == ps[i].1,
{
    let k = ps[i].0;
    assert(has_key(ps, k));
    let j = choose|j: int| 0 <= j < ps.len() && #[trigger] ps[j].0 == k;
    assert(ps[j].0 == k);
    assert(j == i);
}

/// Appending an entry with a new key inserts it into the map.
proof fn lemma_pairs_map_push(ps: Seq<(Seq<char>, Seq<char>)>, k: Seq<char>, v: Seq<char>)
    requires
        distinct_keys(ps),
        !has_key(ps, k),
    ensures
        distinct_keys(ps.push((k, v))),
        pairs_map(ps.push((k, v))) == pairs_map(ps).insert(k, v),
{
    let qs = ps.push((k, v));
    assert forall|i: int, j: int|
        0 <= i < qs.len() && 0 <= j < qs.len() && i != j implies #[trigger] qs[i].0
        != #[trigger] qs[j].0 by {
        if i < ps.len() && j < ps.len() {
            assert(qs[i] == ps[i] && qs[j] == ps[j]);
        } else if i < ps.len() {
            assert(qs[i] == ps[i]);
            if ps[i].0 == k {
                assert(has_key(ps, k));
            }
        } else {
            assert(qs[j] == ps[j]);
            if ps[j].0 == k {
                assert(has_key(ps, k));
            }
        }
    }
    let m = pairs_map(qs);
    let n = pairs_map(ps).insert(k, v);
    assert forall|key: Seq<char>| m.contains_key(key) <==> n.contains_key(key) by {
        if m.contains_key(key) {
            let i = choose|i: int| 0 <= i < qs.len() && #[trigger] qs[i].0 == key;
            if i < ps.len() {
                assert(ps[i].0 == key);
                assert(has_key(ps, key));
            }
        }
        if n.contains_key(key) {
            if key == k {
                assert(qs[ps.len() as int].0 == k);
                assert(has_key(qs, key));
            } else {
                let i = choose|i: int| 0 <= i < ps.len() && #[trigger] ps[i].0 == key;
                assert(qs[i].0 == key);
                assert(has_key(qs, key));
            }
        }
    }
    assert forall|key: Seq<char>| #[trigger] m.contains_key(key) implies m[key] == n[key] by {
        let i = choose|i: int| 0 <= i < qs.len() && #[trigger] qs[i].0 == key;
        lemma_pairs_map_at(qs, i);
        if i < ps.len() {
            assert(qs[i] == ps[i]);
            lemma_pairs_map_at(ps, i);
        }
    }
    assert(m =~= n);
}

/// Replacing the value of an entry replaces it in the map.
proof fn lemma_pairs_map_update(ps: Seq<(Seq<char>, Seq<char>)>, j: int, v: Seq<char>)
    requires
        distinct_keys(ps),
        0 <= j < ps.len(),
    ensures
        distinct_keys(ps.update(j, (ps[j].0, v))),
        pairs_map(ps.update(j, (ps[j].0, v))) == pairs_map(ps).insert(ps[j].0, v),
{
    let k = ps[j].0;
    let qs = ps.update(j, (k, v));
    assert forall|a: int, b: int|
        0 <= a < qs.len() && 0 <= b < qs.len() && a != b implies #[trigger] qs[a].0
        != #[trigger] qs[b].0 by {
        assert(qs[a].0 == ps[a].0);
        assert(qs[b].0 == ps[b].0);
    }
    let m = pairs_map(qs);
    let n = pairs_map(ps).insert(k, v);
    assert forall|key: Seq<char>| m.contains_key(key) <==> n.contains_key(key) by {
        if m.contains_key(key) {
            let i = choose|i: int| 0 <= i < qs.len() && #[trigger] qs[i].0 == key;
            assert(ps[i].0 == key);
            assert(has_key(ps, key));
        }
        if n.contains_key(key) {
            if key == k {
                assert(qs[j].0 == k);
                assert(has_key(qs, key));
            } else {
                let i = choose|i: int| 0 <= i < ps.len() && #[trigger] ps[i].0 == key;
                assert(qs[i].0 == key);
                assert(has_key(qs, key));
            }
        }
    }
    assert forall|key: Seq<char>| #[trigger] m.contains_key(key) implies m[key] == n[key] by {
        let i = choose|i: int| 0 <= i < qs.len() && #[trigger] qs[i].0 == key;
        lemma_pairs_map_at(qs, i);
        if i != j {
            assert(qs[i] == ps[i]);
            lemma_pairs_map_at(ps, i);
        }
    }
    assert(m =~= n);
}

/// Named text settings, as `key=value` lines of a configuration give them.
pub struct Settings {
    entries: Vec<(String, String)>,
}

impl View for Settings {
    type V = Map<Seq<char>, Seq<char>>;

    closed spec fn view(&self) -> Map<Seq<char>, Seq<char>> {
        pairs_map(pair_views(self.entries@))
    }
}

impl Settings {
    /// The keys, in the order in which they were first set.
    pub closed spec fn key_order(&self) -> Seq<Seq<char>> {
        keys_of(pair_views(self.entries@))
    }

    #[verifier::type_invariant]
    spec fn keys_are_distinct(&self) -> bool {
        distinct_keys(pair_views(self.entries@))
    }

    /// No settings.
    pub fn new() -> (r: Settings)
        ensures
            r@ == Map::<Seq<char>, Seq<char>>::empty(),
            r.key_order() == Seq::<Seq<char>>::empty(),
    {
        let r = Settings { entries: Vec::new() };
        assert(r@ =~= Map::<Seq<char>, Seq<char>>::empty());
        assert(r.key_order() =~= Seq::<Seq<char>>::empty());
        r
    }

    /// Sets `key` to `value`, replacing the value it had; a new key comes
    /// after the others, a key already set keeps its place.
    pub fn insert(&mut self, key: String, value: String)
        ensures
            final(self)@ == old(self)@.insert(key@, value@),
            final(self).key_order() == if old(self)@.contains_key(key@) {
                old(self).key_order()
            } else {
                old(self).key_order().push(key@)
            },
    {
        proof {
            use_type_invariant(&*self);
        }
        let ghost ps = pair_views(self.entries@);
        let mut entries: Vec<(String, String)> = Vec::new();
        std::mem::swap(&mut entries, &mut self.entries);
        match find_key(&entries, &key) {
            Some(j) => {
                proof {
                    lemma_pairs_map_update(ps, j as int, value@);
                }
                let k = entries[j].0.clone();
                entries.set(j, (k, value));
                proof {
                    assert(pair_views(entries@) =~= ps.update(j as int, (ps[j as int].0, value@)));
                    assert(keys_of(pair_views(entries@)) =~= keys_of(ps));
                    assert(ps[j as int].0 == key@);
                    assert(has_key(ps, key@));
                }
            },
            None => {
                proof {
                    lemma_pairs_map_push(ps, key@, value@);
                }
                entries.push((key, value));
                proof {
                    assert(pair_views(entries@) =~= ps.push((key@, value@)));
                    assert(keys_of(pair_views(entries@)) =~= keys_of(ps).push(key@));
                }
            },
        }
        self.entries = entries;
    }

    /// The value of `key`, if it is set.
    pub fn get(&self, key: &str) -> (r: Option<&String>)
        ensures
            match r {
                Some(v) => self@.contains_key(key@) && self@[key@] == v@,
                None => !self@.contains_key(key@),
            },
    {
        proof {
            use_type_invariant(self);
        }
        let k = String::from_str(key);
        match find_key(&self.entries, &k) {
            Some(j) => {
                proof {
                    lemma_pairs_map_at(pair_views(self.entries@), j as int);
                }
                Some(&self.entries[j].1)
            },
            None => None,
        }
    }

    /// The entries, in the order in which their keys were first set.
    pub fn entries(&self) -> (r: &Vec<(String, String)>)
        ensures
            distinct_keys(pair_views(r@)),
            pairs_map(pair_views(r@)) == self@,
            keys_of(pair_views(r@)) == self.key_order(),
    {
        proof {
            use_type_invariant(self);
        }
        &self.entries
    }

    /// A copy of these settings.
    pub fn duplicate(&self) -> (r: Settings)
        ensures
            r@ == self@,
            r.key_order() == self.key_order(),
    {
        proof {
            use_type_invariant(self);
        }
        let mut entries: Vec<(String, String)> = Vec::new();
        let mut i: usize = 0;
        while i < self.entries.len()
            invariant
                i <= self.entries@.len(),
                entries@.len() == i,
                forall|j: int| 0 <= j < i ==> #[trigger] entries@[j].0@ == self.entries@[j].0@
                    && entries@[j].1@ == self.entries@[j].1@,
            decreases self.entries@.len() - i,
        {
            let k = self.entries[i].0.clone();
            let v = self.entries[i].1.clone();
            entries.push((k, v));
            i = i + 1;
        }
        proof {
            assert(pair_views(entries@) =~= pair_views(self.entries@));
        }
        Settings { entries }
    }

    /// Whether `other` holds the same settings, in whatever order.
    pub fn same_as(&self, other: &Settings) -> (r: bool)
        ensures
            r == (self@ == other@),
    {
        proof {
            use_type_invariant(self);
            use_type_invariant(other);
        }
        let a = self.covered_by(other);
        let b = other.covered_by(self);
        proof {
            if a && b {
                assert(self@ =~= other@);
            }
        }
        a && b
    }

    /// Whether every setting of `self` is set to the same value in `other`.
    fn covered_by(&self, other: &Settings) -> (r: bool)
        ensures
            r == (forall|k: Seq<char>| #[trigger] self@.contains_key(k) ==> other@.contains_key(k)
                && other@[k] == self@[k]),
    {
        proof {
            use_type_invariant(self);
            use_type_invariant(other);
        }
        let ghost ps = pair_views(self.entries@);
        let mut i: usize = 0;
        while i < self.entries.len()
            invariant
                i <= self.entries@.len(),
                ps == pair_views(self.entries@),
                distinct_keys(ps),
                distinct_keys(pair_views(other.entries@)),
                forall|j: int|
                    0 <= j < i ==> other@.contains_key(#[trigger] ps[j].0) && other@[ps[j].0]
                        == ps[j].1,
            decreases self.entries@.len() - i,
        {
            let found = match find_key(&other.entries, &self.entries[i].0) {
                Some(j) => {
                    proof {
                        lemma_pairs_map_at(pair_views(other.entries@), j as int);
                    }
                    other.entries[j].1 == self.entries[i].1
                },
                None => false,
            };
            if !found {
                proof {
                    lemma_pairs_map_at(ps, i as int);
                    assert(self@.contains_key(ps[i as int].0));
                }
                return false;
            }
            i = i + 1;
        }
        proof {
            assert forall|k: Seq<char>| #[trigger] self@.contains_key(k) implies other@.contains_key(
                k,
            ) && other@[k] == self@[k] by {
                let j = choose|j: int| 0 <= j < ps.len() && #[trigger] ps[j].0 == k;
                lemma_pairs_map_at(ps, j);
            }
        }
        true
    }
}

/// Where the entry with key `key` stands among `entries`, if there is one.
fn find_key(entries: &Vec<(String, String)>, key: &String) -> (r: Option<usize>)
    ensures
        match r {
            Some(j) => j < entries@.len() && entries@[j as int].0@ == key@,
            None => !has_key(pair_views(entries@), key@),
        },
{
    let mut i: usize = 0;
    while i < entries.len()
        invariant
            i <= entries@.len(),
            forall|j: int| 0 <= j < i ==> #[trigger] entries@[j].0@ != key@,
        decreases entries@.len() - i,
    {
        if entries[i].0 == *key {
            return Some(i);
        }
        i = i + 1;
    }
    let ghost ps = pair_views(entries@);
    assert forall|j: int| 0 <= j < ps.len() implies #[trigger] ps[j].0 != key@ by {
        assert(entries@[j].0@ != key@);
    }
    None
}

} // verus!

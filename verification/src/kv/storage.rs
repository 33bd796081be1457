//! The in-memory key-value store.

use vstd::hash_map::StringHashMap;
use vstd::prelude::*;

use crate::text::views;

verus! {

/// A pair of strings taken as a pair of character sequences.
pub open spec fn pair_view(p: (String, String)) -> (Seq<char>, Seq<char>) {
    (p.0@, p.1@)
}

/// `pairs` lists the entries of `m`, each exactly once, in some order.
pub open spec fn lists_exactly(
    pairs: Seq<(Seq<char>, Seq<char>)>,
    m: Map<Seq<char>, Seq<char>>,
) -> bool {
    &&& forall|i: int|
        0 <= i < pairs.len() ==> m.contains_key(#[trigger] pairs[i].0) && m[pairs[i].0]
            == pairs[i].1
    &&& forall|i: int, j: int| 0 <= i < j < pairs.len() ==> pairs[i].0 != pairs[j].0
    &&& forall|k: Seq<char>| #[trigger] m.contains_key(k) ==> exists|i: int| 0 <= i < pairs.len() && pairs[i].0 == k
}

/// A string-keyed map of string values.
pub struct Storage {
    data: StringHashMap<String>,
    keys: Vec<String>,
}

impl View for Storage {
    type V = Map<Seq<char>, Seq<char>>;

    closed spec fn view(&self) -> Map<Seq<char>, Seq<char>> {
        self.data@.map_values(|v: String| v@)
    }
}

impl Storage {
    /// The keys are listed once each, and exactly the keys of the map.
    #[verifier::type_invariant]
    closed spec fn inv(self) -> bool {
        &&& views(self.keys@).no_duplicates()
        &&& forall|k: Seq<char>| #[trigger] self.data@.contains_key(k) <==> views(self.keys@).contains(k)
    }

    /// An empty store.
    pub fn new() -> (s: Self)
        ensures
            s@ == Map::<Seq<char>, Seq<char>>::empty(),
    {
        let s = Storage { data: StringHashMap::new(), keys: Vec::new() };
        assert(s@ =~= Map::<Seq<char>, Seq<char>>::empty());
        s
    }

    /// The value stored under `key`, if any.
    pub fn get(&self, key: &str) -> (r: Option<&String>)
        ensures
            match r {
                Some(v) => self@.contains_key(key@) && v@ == self@[key@],
                None => !self@.contains_key(key@),
            },
    {
        self.data.get(key)
    }

    /// Whether the store holds no entry.
    pub fn is_empty(&self) -> (b: bool)
        ensures
            b == (self@ == Map::<Seq<char>, Seq<char>>::empty()),
    {
        proof {
            use_type_invariant(self);
            if self.keys.len() > 0 {
                assert(views(self.keys@)[0] == self.keys@[0]@);
                assert(self.data@.contains_key(self.keys@[0]@));
                assert(self@.contains_key(self.keys@[0]@));
            } else {
                assert(self@ =~= Map::<Seq<char>, Seq<char>>::empty());
            }
        }
        self.keys.len() == 0
    }

    /// Stores `value` under `key`, replacing any earlier value.
    pub fn set(&mut self, key: &str, value: &str)
        ensures
            final(self)@ == old(self)@.insert(key@, value@),
    {
        proof {
            use_type_invariant(&*self);
        }
        let mut tmp = Storage::new();
        std::mem::swap(self, &mut tmp);
        let Storage { mut data, mut keys } = tmp;
        let present = data.contains_key(key);
        let ghost old_keys = views(keys@);
        if !present {
            let k = key.to_string();
            keys.push(k);
            proof {
                assert(views(keys@) =~= old_keys.push(key@));
                assert forall|i: int, j: int|
                    0 <= i < j < views(keys@).len() implies views(keys@)[i] != views(keys@)[j] by {
                    if j == views(keys@).len() - 1 {
                        assert(old_keys.contains(views(keys@)[i]));
                    }
                }
            }
        }
        data.insert(key.to_string(), value.to_string());
        proof {
            assert forall|k: Seq<char>| #[trigger] data@.contains_key(k) <==> views(keys@).contains(k) by {
                if k == key@ {
                    if present {
                        assert(old_keys.contains(k));
                    } else {
                        assert(views(keys@)[views(keys@).len() - 1] == k);
                    }
                } else {
                    if !present {
                        if old_keys.contains(k) {
                            let i = choose|i: int| 0 <= i < old_keys.len() && old_keys[i] == k;
                            assert(views(keys@)[i] == k);
                        }
                        if views(keys@).contains(k) {
                            let i = choose|i: int| 0 <= i < views(keys@).len() && views(keys@)[i] == k;
                            assert(old_keys[i] == k);
                        }
                    }
                }
            }
        }
        *self = Storage { data, keys };
        assert(self@ =~= old(self)@.insert(key@, value@));
    }

    /// Removes the entry under `key`, if there is one.
    pub fn delete(&mut self, key: &str)
        ensures
            final(self)@ == old(self)@.remove(key@),
    {
        proof {
            use_type_invariant(&*self);
        }
        let mut tmp = Storage::new();
        std::mem::swap(self, &mut tmp);
        let Storage { mut data, keys } = tmp;
        let ghost old_keys = views(keys@);
        // Keep every listed key but `key`.
        let mut kept: Vec<String> = Vec::new();
        let mut i: usize = 0;
        while i < keys.len()
            invariant
                i <= keys.len(),
                old_keys == views(keys@),
                old_keys.no_duplicates(),
                views(kept@).no_duplicates(),
                forall|k: Seq<char>|
                    views(kept@).contains(k) <==> (old_keys.take(i as int).contains(k) && k
                        != key@),
            decreases keys.len() - i,
        {
            let ghost before = views(kept@);
            proof {
                assert(old_keys.take(i as int + 1) =~= old_keys.take(i as int).push(old_keys[i as int]));
            }
            let same = crate::text::chars_eq_str(crate::text::chars_of(keys[i].as_str()).as_slice(), key);
            if !same {
                let k = keys[i].clone();
                kept.push(k);
                proof {
                    assert(views(kept@) =~= before.push(old_keys[i as int]));
                    assert(!old_keys.take(i as int).contains(old_keys[i as int])) by {
                        if old_keys.take(i as int).contains(old_keys[i as int]) {
                            let j = choose|j: int| 0 <= j < i && #[trigger] old_keys.take(i as int)[j] == old_keys[i as int];
                            assert(old_keys[j] == old_keys[i as int]);
                        }
                    }
                    assert forall|a: int, b: int|
                        0 <= a < b < views(kept@).len() implies views(kept@)[a] != views(kept@)[b] by {
                        if b == views(kept@).len() - 1 {
                            assert(before.contains(views(kept@)[a]));
                        }
                    }
                    assert forall|k: Seq<char>|
                        views(kept@).contains(k) <==> (old_keys.take(i as int + 1).contains(k) && k != key@) by {
                        assert(old_keys[i as int] == keys@[i as int]@);
                        assert(old_keys.take(i as int + 1)[i as int] == old_keys[i as int]);
                        if views(kept@).contains(k) && k != old_keys[i as int] {
                            let j = choose|j: int| 0 <= j < views(kept@).len() && views(kept@)[j] == k;
                            assert(before[j] == k);
                            assert(before.contains(k));
                            let j2 = choose|j2: int| 0 <= j2 < i && #[trigger] old_keys.take(i as int)[j2] == k;
                            assert(old_keys.take(i as int + 1)[j2] == k);
                        }
                        if old_keys.take(i as int + 1).contains(k) && k != old_keys[i as int] && k != key@ {
                            let j = choose|j: int| 0 <= j <= i && #[trigger] old_keys.take(i as int + 1)[j] == k;
                            assert(old_keys.take(i as int)[j] == k);
                            assert(before.contains(k));
                            let j2 = choose|j2: int| 0 <= j2 < before.len() && before[j2] == k;
                            assert(views(kept@)[j2] == k);
                        }
                        if k == old_keys[i as int] {
                            assert(views(kept@)[views(kept@).len() - 1] == k);
                        }
                    }
                }
            } else {
                proof {
                    assert forall|k: Seq<char>|
                        views(kept@).contains(k) <==> (old_keys.take(i as int + 1).contains(k) && k != key@) by {
                        if old_keys.take(i as int + 1).contains(k) && k != key@ {
                            let j = choose|j: int| 0 <= j <= i && #[trigger] old_keys.take(i as int + 1)[j] == k;
                            assert(j != i);
                            assert(old_keys.take(i as int)[j] == k);
                        }
                    }
                }
            }
            i += 1;
        }
        assert(old_keys.take(keys.len() as int) =~= old_keys);
        data.remove(key);
        *self = Storage { data, keys: kept };
        assert(self@ =~= old(self)@.remove(key@));
    }

    /// Every entry of the store, each once, as (key, value) pairs.
    pub fn list_all(&self) -> (r: Vec<(String, String)>)
        ensures
            lists_exactly(r@.map_values(|p: (String, String)| pair_view(p)), self@),
            r.len() == self@.dom().len(),
    {
        proof {
            use_type_invariant(self);
        }
        let ghost ks = views(self.keys@);
        let mut r: Vec<(String, String)> = Vec::new();
        let mut i: usize = 0;
        while i < self.keys.len()
            invariant
                i <= self.keys.len(),
                ks == views(self.keys@),
                ks.no_duplicates(),
                forall|k: Seq<char>| #[trigger] self.data@.contains_key(k) <==> ks.contains(k),
                r.len() == i,
                forall|j: int|
                    0 <= j < i ==> (#[trigger] r@[j]).0@ == ks[j] && self@.contains_key(ks[j])
                        && self@[ks[j]] == r@[j].1@,
            decreases self.keys.len() - i,
        {
            let k = &self.keys[i];
            assert(ks[i as int] == k@);
            assert(ks.contains(k@));
            let v = self.data.get(k.as_str());
            match v {
                Some(v) => {
                    r.push((k.clone(), v.clone()));
                },
                None => {
                    assert(false);
                },
            }
            i += 1;
        }
        let ghost pv = r@.map_values(|p: (String, String)| pair_view(p));
        assert forall|k: Seq<char>| #[trigger] self@.contains_key(k) implies exists|j: int|
            0 <= j < pv.len() && pv[j].0 == k by {
            assert(ks.contains(k));
            let j = choose|j: int| 0 <= j < ks.len() && ks[j] == k;
            assert(pv[j].0 == k);
        }
        assert forall|a: int, b: int| 0 <= a < b < pv.len() implies pv[a].0 != pv[b].0 by {
            assert(pv[a].0 == ks[a]);
            assert(pv[b].0 == ks[b]);
        }
        assert forall|j: int| 0 <= j < pv.len() implies self@.contains_key(#[trigger] pv[j].0) && self@[pv[j].0] == pv[j].1 by {
            assert(pv[j].0 == r@[j].0@);
        }
        proof {
            law_listing_counts_keys(pv, self@);
        }
        r
    }
}

/// The store after a sequence of updates, each a key with `Some(v)` for
/// `set(key, v)` or `None` for `delete(key)`, applied in order to `m`.
pub open spec fn after_updates(
    m: Map<Seq<char>, Seq<char>>,
    ops: Seq<(Seq<char>, Option<Seq<char>>)>,
) -> Map<Seq<char>, Seq<char>>
    decreases ops.len(),
{
    if ops.len() == 0 {
        m
    } else {
        let before = after_updates(m, ops.drop_last());
        match ops.last().1 {
            Some(v) => before.insert(ops.last().0, v),
            None => before.remove(ops.last().0),
        }
    }
}

/// The last update of `key` in `ops`, if any.
pub open spec fn last_update(ops: Seq<(Seq<char>, Option<Seq<char>>)>, key: Seq<char>) -> Option<
    Option<Seq<char>>,
>
    decreases ops.len(),
{
    if ops.len() == 0 {
        None
    } else if ops.last().0 == key {
        Some(ops.last().1)
    } else {
        last_update(ops.drop_last(), key)
    }
}

/// Reading a key after any sequence of `set` and `delete` calls on a new
/// store gives the value of the last `set` of that key, unless a `delete`
/// of it came later or it was never set.
pub proof fn law_get_after_updates(ops: Seq<(Seq<char>, Option<Seq<char>>)>, key: Seq<char>)
    ensures
        match last_update(ops, key) {
            Some(Some(v)) => after_updates(Map::empty(), ops).contains_key(key) && after_updates(
                Map::empty(),
                ops,
            )[key] == v,
            _ => !after_updates(Map::empty(), ops).contains_key(key),
        },
    decreases ops.len(),
{
    if ops.len() > 0 {
        law_get_after_updates(ops.drop_last(), key);
    }
}

/// A listing of a store has as many pairs as the store has keys.
pub proof fn law_listing_counts_keys(pairs: Seq<(Seq<char>, Seq<char>)>, m: Map<Seq<char>, Seq<char>>)
    requires
        lists_exactly(pairs, m),
    ensures
        m.dom().finite(),
        pairs.len() == m.dom().len(),
{
    let keys = pairs.map_values(|p: (Seq<char>, Seq<char>)| p.0);
    assert forall|i: int, j: int| 0 <= i < keys.len() && 0 <= j < keys.len() && i != j implies keys[i]
        != keys[j] by {
        if i < j {
            assert(pairs[i].0 != pairs[j].0);
        } else {
            assert(pairs[j].0 != pairs[i].0);
        }
    }
    assert(keys.no_duplicates());
    keys.unique_seq_to_set();
    assert forall|k: Seq<char>| keys.to_set().contains(k) <==> m.dom().contains(k) by {
        if m.dom().contains(k) {
            assert(m.contains_key(k));
            let i = choose|i: int| 0 <= i < pairs.len() && pairs[i].0 == k;
            assert(keys[i] == k);
        }
        if keys.to_set().contains(k) {
            let i = choose|i: int| 0 <= i < keys.len() && keys[i] == k;
            assert(m.contains_key(pairs[i].0));
        }
    }
    assert(keys.to_set() =~= m.dom());
}

} // verus!

//! An id-keyed table that knows its keys in increasing order.
//!
//! Every component of the cluster engine keeps its per-node or per-item
//! state in one of these: a hash map from id to value, and beside it the
//! keys in increasing order. Its view is the finite `Map<u128, V>` of the
//! hash map; the order of the keys is part of the interface, so that
//! snapshots and tie-breaks do not depend on how the hash map is walked.

use std::collections::HashMap;
use vstd::prelude::*;
use vstd::std_specs::hash::group_hash_axioms;

verus! {

/// `s` holds its ids in strictly increasing order (hence none twice).
pub open spec fn strictly_increasing(s: Seq<u128>) -> bool {
    forall|i: int, j: int| 0 <= i < j < s.len() ==> s[i] < s[j]
}

/// Putting a new id at its place keeps the order and adds it to the ids.
pub proof fn lemma_insert_in_order(s: Seq<u128>, p: int, id: u128)
    requires
        strictly_increasing(s),
        0 <= p <= s.len(),
        forall|i: int| 0 <= i < p ==> s[i] < id,
        forall|i: int| p <= i < s.len() ==> s[i] > id,
    ensures
        strictly_increasing(s.insert(p, id)),
        s.insert(p, id).to_set() == s.to_set().insert(id),
{
    let t = s.insert(p, id);
    assert forall|i: int, j: int| 0 <= i < j < t.len() implies t[i] < t[j] by {
        let a = if i < p { i } else { i - 1 };
        let b = if j < p { j } else { j - 1 };
        if i != p && j != p {
            assert(s[a] < s[b]);
        } else if i == p {
            assert(s[b] > id);
        } else {
            assert(s[a] < id);
        }
    }
    assert forall|k: u128| t.to_set().contains(k) <==> s.to_set().insert(id).contains(k) by {
        if t.contains(k) {
            let j = choose|j: int| 0 <= j < t.len() && t[j] == k;
            if j < p {
                assert(s[j] == k);
            } else if j > p {
                assert(s[j - 1] == k);
            }
        }
        if s.contains(k) {
            let j = choose|j: int| 0 <= j < s.len() && s[j] == k;
            if j < p {
                assert(t[j] == k);
            } else {
                assert(t[j + 1] == k);
            }
        }
        assert(t[p] == id);
    }
    assert(t.to_set() =~= s.to_set().insert(id));
}

/// Taking an id out keeps the order and takes it out of the ids.
pub proof fn lemma_remove_in_order(s: Seq<u128>, p: int)
    requires
        strictly_increasing(s),
        0 <= p < s.len(),
    ensures
        strictly_increasing(s.remove(p)),
        s.remove(p).to_set() == s.to_set().remove(s[p]),
{
    let t = s.remove(p);
    let id = s[p];
    assert forall|i: int, j: int| 0 <= i < j < t.len() implies t[i] < t[j] by {
        let a = if i < p { i } else { i + 1 };
        let b = if j < p { j } else { j + 1 };
        assert(s[a] < s[b]);
    }
    assert forall|k: u128| t.to_set().contains(k) <==> s.to_set().remove(id).contains(k) by {
        if t.contains(k) {
            let j = choose|j: int| 0 <= j < t.len() && t[j] == k;
            if j < p {
                assert(s[j] == k);
                assert(s[j] < s[p]);
            } else {
                assert(s[j + 1] == k);
                assert(s[p] < s[j + 1]);
            }
        }
        if s.contains(k) && k != id {
            let j = choose|j: int| 0 <= j < s.len() && s[j] == k;
            if j < p {
                assert(t[j] == k);
            } else {
                assert(j > p);
                assert(t[j - 1] == k);
            }
        }
    }
    assert(t.to_set() =~= s.to_set().remove(id));
}

/// The map that a list of records stands for, each filed under its key:
/// where a key occurs more than once, the last record with it counts.
pub open spec fn filed<V>(list: Seq<V>, key: spec_fn(V) -> u128) -> Map<u128, V>
    decreases list.len(),
{
    if list.len() == 0 {
        Map::empty()
    } else {
        filed(list.drop_last(), key).insert(key(list.last()), list.last())
    }
}

/// A list holds the records of `m`, each once and under its key, in
/// increasing order of key.
pub open spec fn lists_in_order<V>(list: Seq<V>, key: spec_fn(V) -> u128, m: Map<u128, V>) -> bool {
    &&& forall|i: int, j: int| 0 <= i < j < list.len() ==> key(list[i]) < key(list[j])
    &&& forall|i: int|
        0 <= i < list.len() ==> m.contains_key(#[trigger] key(list[i])) && m[key(list[i])]
            == list[i]
    &&& forall|k: u128|
        m.contains_key(k) ==> exists|i: int| 0 <= i < list.len() && #[trigger] key(list[i]) == k
}

/// In a list without repeated keys every record is the one filed under its key.
pub proof fn lemma_filed<V>(list: Seq<V>, key: spec_fn(V) -> u128)
    requires
        forall|i: int, j: int| 0 <= i < j < list.len() ==> key(list[i]) != key(list[j]),
    ensures
        forall|i: int|
            0 <= i < list.len() ==> filed(list, key).contains_key(#[trigger] key(list[i]))
                && filed(list, key)[key(list[i])] == list[i],
        forall|k: u128|
            filed(list, key).contains_key(k) ==> exists|i: int|
                0 <= i < list.len() && #[trigger] key(list[i]) == k,
    decreases list.len(),
{
    if list.len() > 0 {
        let front = list.drop_last();
        lemma_filed(front, key);
        assert(filed(list, key) == filed(front, key).insert(key(list.last()), list.last()));
        assert forall|i: int| 0 <= i < list.len() implies filed(list, key).contains_key(
            #[trigger] key(list[i]),
        ) && filed(list, key)[key(list[i])] == list[i] by {
            if i < list.len() - 1 {
                assert(front[i] == list[i]);
                assert(key(list[i]) != key(list[list.len() - 1]));
            }
        }
        assert forall|k: u128| filed(list, key).contains_key(k) implies exists|i: int|
            0 <= i < list.len() && #[trigger] key(list[i]) == k by {
            if k == key(list.last()) {
                assert(key(list[list.len() - 1]) == k);
            } else {
                assert(filed(front, key).contains_key(k));
                let i = choose|i: int| 0 <= i < front.len() && #[trigger] key(front[i]) == k;
                assert(front[i] == list[i]);
                assert(key(list[i]) == k);
            }
        }
    }
}

/// Filing the records of a map as they are listed in order gives the map
/// back: what a table hands out, taken in again, is the same table.
pub proof fn lemma_filed_restores<V>(list: Seq<V>, key: spec_fn(V) -> u128, m: Map<u128, V>)
    requires
        lists_in_order(list, key, m),
    ensures
        filed(list, key) == m,
{
    lemma_filed(list, key);
    assert forall|k: u128| filed(list, key).contains_key(k) <==> m.contains_key(k) by {
        if filed(list, key).contains_key(k) {
            let i = choose|i: int| 0 <= i < list.len() && #[trigger] key(list[i]) == k;
        }
        if m.contains_key(k) {
            let i = choose|i: int| 0 <= i < list.len() && #[trigger] key(list[i]) == k;
        }
    }
    assert forall|k: u128| filed(list, key).contains_key(k) implies filed(list, key)[k]
        == m[k] by {
        let i = choose|i: int| 0 <= i < list.len() && #[trigger] key(list[i]) == k;
    }
    assert(filed(list, key) =~= m);
}

/// A map from ids to values: a hash map, and its keys in increasing order.
pub struct IdTable<V> {
    map: HashMap<u128, V>,
    keys: Vec<u128>,
}

impl<V> View for IdTable<V> {
    type V = Map<u128, V>;

    closed spec fn view(&self) -> Map<u128, V> {
        self.map@
    }
}

/// The position of the first of the ordered `keys` that is not below `id`.
fn lower_bound(keys: &Vec<u128>, id: u128) -> (p: usize)
    requires
        strictly_increasing(keys@),
    ensures
        p <= keys@.len(),
        forall|i: int| 0 <= i < p ==> keys@[i] < id,
        forall|i: int| p <= i < keys@.len() ==> keys@[i] >= id,
        p < keys@.len() && keys@[p as int] != id ==> forall|i: int|
            p <= i < keys@.len() ==> keys@[i] > id,
        keys@.contains(id) <==> p < keys@.len() && keys@[p as int] == id,
{
    let mut lo: usize = 0;
    let mut hi: usize = keys.len();
    while lo < hi
        invariant
            strictly_increasing(keys@),
            lo <= hi <= keys@.len(),
            forall|i: int| 0 <= i < lo ==> keys@[i] < id,
            forall|i: int| hi <= i < keys@.len() ==> keys@[i] >= id,
        decreases hi - lo,
    {
        let mid: usize = lo + (hi - lo) / 2;
        if keys[mid] < id {
            lo = mid + 1;
        } else {
            hi = mid;
        }
    }
    proof {
        if lo < keys@.len() && keys@[lo as int] != id {
            assert forall|i: int| lo <= i < keys@.len() implies keys@[i] > id by {
                if i > lo {
                    assert(keys@[lo as int] < keys@[i]);
                }
            }
        }
        if keys@.contains(id) {
            let j = choose|j: int| 0 <= j < keys@.len() && keys@[j] == id;
            assert(j >= lo);
            if j > lo {
                assert(keys@[lo as int] < keys@[j]);
            }
        }
    }
    lo
}

impl<V> IdTable<V> {
    /// The keys of the table, in increasing order.
    pub closed spec fn ids(&self) -> Seq<u128> {
        self.keys@
    }

    /// The values of the table, in the order of `ids`.
    pub closed spec fn values(&self) -> Seq<V> {
        Seq::new(self.keys@.len(), |i: int| self.map@[self.keys@[i]])
    }

    /// The representation invariant: the keys held in order are strictly
    /// increasing, and they are the keys of the hash map.
    pub closed spec fn wf(&self) -> bool {
        strictly_increasing(self.keys@) && self.keys@.to_set() == self.map@.dom()
    }

    /// What `ids`, `values` and the view have to do with each other.
    pub proof fn lemma_view(&self)
        requires
            self.wf(),
        ensures
            strictly_increasing(self.ids()),
            self.ids().no_duplicates(),
            self.values().len() == self.ids().len(),
            self@.dom().finite(),
            self@.dom() == self.ids().to_set(),
            self@.len() == self.ids().len(),
            forall|i: int|
                0 <= i < self.ids().len() ==> self@.contains_key(#[trigger] self.ids()[i])
                    && self@[self.ids()[i]] == self.values()[i],
            forall|k: u128| #[trigger]
                self@.contains_key(k) ==> 0 <= self.ids().index_of(k) < self.ids().len()
                    && self.ids()[self.ids().index_of(k)] == k,
    {
        let ids = self.keys@;
        assert(ids.no_duplicates());
        ids.unique_seq_to_set();
        vstd::seq_lib::seq_to_set_is_finite(ids);
        assert forall|i: int| 0 <= i < ids.len() implies self@.contains_key(#[trigger] ids[i]) by {
            assert(ids.contains(ids[i]));
            assert(ids.to_set().contains(ids[i]));
        }
        assert forall|k: u128| #[trigger] self@.contains_key(k) implies 0 <= ids.index_of(k)
            < ids.len() && ids[ids.index_of(k)] == k by {
            assert(ids.to_set().contains(k));
            assert(ids.contains(k));
        }
    }

    /// The values of a table whose records carry their key are a listing
    /// of its view in order.
    pub proof fn lemma_values_list(&self, key: spec_fn(V) -> u128)
        requires
            self.wf(),
            forall|k: u128| self@.contains_key(k) ==> key(#[trigger] self@[k]) == k,
        ensures
            lists_in_order(self.values(), key, self@),
            filed(self.values(), key) == self@,
            forall|i: int| 0 <= i < self.values().len() ==> key(self.values()[i]) == self.ids()[i],
    {
        self.lemma_view();
        let list = self.values();
        assert forall|i: int| 0 <= i < list.len() implies key(list[i]) == self.ids()[i] by {
            assert(self@.contains_key(self.ids()[i]));
        }
        assert forall|k: u128| self@.contains_key(k) implies exists|i: int|
            0 <= i < list.len() && #[trigger] key(list[i]) == k by {
            let j = self.ids().index_of(k);
            assert(self.ids()[j] == k);
            assert(key(list[j]) == k);
        }
        assert forall|i: int, j: int| 0 <= i < j < list.len() implies key(list[i]) < key(
            list[j],
        ) by {
            assert(self.ids()[i] < self.ids()[j]);
        }
        assert forall|i: int| 0 <= i < list.len() implies self@.contains_key(
            #[trigger] key(list[i]),
        ) && self@[key(list[i])] == list[i] by {
            assert(self@.contains_key(self.ids()[i]));
        }
        lemma_filed_restores(list, key, self@);
    }

    /// An empty table.
    pub fn new() -> (t: Self)
        ensures
            t.wf(),
            t@ == Map::<u128, V>::empty(),
            t.ids() == Seq::<u128>::empty(),
    {
        let t = IdTable { map: HashMap::new(), keys: Vec::new() };
        assert(t.keys@.to_set() =~= t.map@.dom());
        t
    }

    /// The number of entries.
    pub fn len(&self) -> (n: usize)
        requires
            self.wf(),
        ensures
            n == self@.len(),
            n == self.ids().len(),
    {
        proof {
            self.lemma_view();
        }
        self.keys.len()
    }

    /// The position of `id` among the keys, if it is one of them.
    pub fn position(&self, id: u128) -> (r: Option<usize>)
        requires
            self.wf(),
        ensures
            r is Some <==> self@.contains_key(id),
            r matches Some(p) ==> p < self.ids().len() && self.ids()[p as int] == id
                && self.values()[p as int] == self@[id],
    {
        let p = lower_bound(&self.keys, id);
        if p < self.keys.len() && self.keys[p] == id {
            Some(p)
        } else {
            None
        }
    }

    /// Whether `id` is a key of the table.
    pub fn contains_key(&self, id: u128) -> (b: bool)
        requires
            self.wf(),
        ensures
            b == self@.contains_key(id),
    {
        broadcast use group_hash_axioms;

        self.map.contains_key(&id)
    }

    /// The value under `id`, if there is one.
    pub fn get(&self, id: u128) -> (r: Option<&V>)
        requires
            self.wf(),
        ensures
            r is Some <==> self@.contains_key(id),
            r matches Some(v) ==> *v == self@[id],
    {
        broadcast use group_hash_axioms;

        self.map.get(&id)
    }

    /// The key at position `i` in increasing order.
    pub fn id_at(&self, i: usize) -> (id: u128)
        requires
            self.wf(),
            i < self.ids().len(),
        ensures
            id == self.ids()[i as int],
            self@.contains_key(id),
    {
        proof {
            self.lemma_view();
        }
        self.keys[i]
    }

    /// The value at position `i` in increasing order of the keys.
    pub fn value_at(&self, i: usize) -> (v: &V)
        requires
            self.wf(),
            i < self.ids().len(),
        ensures
            *v == self.values()[i as int],
            *v == self@[self.ids()[i as int]],
    {
        broadcast use group_hash_axioms;

        proof {
            self.lemma_view();
        }
        let found = self.map.get(&self.keys[i]);
        found.unwrap()
    }

    /// Binds `id` to `value`, and hands back what it was bound to before.
    pub fn insert(&mut self, id: u128, value: V) -> (prev: Option<V>)
        requires
            old(self).wf(),
        ensures
            final(self).wf(),
            final(self)@ == old(self)@.insert(id, value),
            prev is Some <==> old(self)@.contains_key(id),
            prev matches Some(v) ==> v == old(self)@[id],
    {
        broadcast use group_hash_axioms;

        let p = lower_bound(&self.keys, id);
        let prev = self.map.insert(id, value);
        if prev.is_none() {
            proof {
                assert(!self.keys@.contains(id)) by {
                    assert(!old(self).keys@.to_set().contains(id));
                }
                lemma_insert_in_order(self.keys@, p as int, id);
            }
            self.keys.insert(p, id);
            assert(self.map@.dom() =~= old(self).map@.dom().insert(id));
        } else {
            assert(self.map@.dom() =~= old(self).map@.dom());
        }
        prev
    }

    /// Drops the binding of `id`, and hands back what it was bound to.
    pub fn remove(&mut self, id: u128) -> (prev: Option<V>)
        requires
            old(self).wf(),
        ensures
            final(self).wf(),
            final(self)@ == old(self)@.remove(id),
            prev is Some <==> old(self)@.contains_key(id),
            prev matches Some(v) ==> v == old(self)@[id],
    {
        broadcast use group_hash_axioms;

        let p = lower_bound(&self.keys, id);
        let prev = self.map.remove(&id);
        if prev.is_some() {
            proof {
                assert(old(self).keys@.to_set().contains(id));
                assert(self.keys@.contains(id));
                lemma_remove_in_order(self.keys@, p as int);
            }
            self.keys.remove(p);
            assert(self.map@.dom() =~= old(self).map@.dom().remove(id));
        } else {
            assert(self.map@.dom() =~= old(self).map@.dom());
        }
        prev
    }
}

} // verus!

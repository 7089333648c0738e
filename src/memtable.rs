use vstd::prelude::*;

use crate::storage::{
    copy_pairs, find_key, lists_exactly, lookup, put_pair, store_after_del, store_after_set,
    table_of, take_pair, Storage, StoreView, TableView,
};
use crate::value::{opt_view, KvError, Kvpair, Value};
use vstd::std_specs::iter::IteratorSpec;

verus! {

broadcast use vstd::std_specs::vec::axiom_spec_into_iter;

/// One table of the store: its name and its pairs.
struct Slot {
    name: String,
    pairs: Vec<Kvpair>,
}

/// A store held in process memory: a set of named tables, each a map from
/// key to value. A table comes into being with the first `set` on it.
///
/// Every operation succeeds. To share one store between threads, put it
/// behind a lock: each operation then runs whole under that lock.
pub struct MemTable {
    slots: Vec<Slot>,
    model: Ghost<StoreView>,
}

impl MemTable {
    /// The tables and their contents.
    pub closed spec fn view(&self) -> StoreView {
        self.model@
    }

    /// Table names are unique, each slot lists exactly its table, and each
    /// table has a slot.
    pub closed spec fn wf(&self) -> bool {
        let s = self.slots@;
        &&& forall|i: int, j: int|
            0 <= i < s.len() && 0 <= j < s.len() && i != j ==> #[trigger] s[i].name@ != #[trigger] s[j].name@
        &&& forall|i: int|
            0 <= i < s.len() ==> self.model@.contains_key(#[trigger] s[i].name@)
                && lists_exactly(s[i].pairs@, self.model@[s[i].name@])
        &&& forall|t: Seq<char>|
            self.model@.contains_key(t) ==> exists|i: int| 0 <= i < s.len() && #[trigger] s[i].name@ == t
    }

    /// An empty store.
    pub fn new() -> (r: MemTable)
        ensures
            r.wf(),
            r.view() == StoreView::empty(),
    {
        MemTable { slots: Vec::new(), model: Ghost(StoreView::empty()) }
    }

    /// The index of the slot of table `t`, if it exists.
    fn find_slot(&self, t: &String) -> (r: Option<usize>)
        requires
            self.wf(),
        ensures
            match r {
                Some(i) => i < self.slots@.len() && self.slots@[i as int].name@ == t@
                    && self.model@.contains_key(t@),
                None => !self.model@.contains_key(t@),
            },
    {
        let mut i: usize = 0;
        while i < self.slots.len()
            invariant
                self.wf(),
                i <= self.slots@.len(),
                forall|j: int| 0 <= j < i ==> self.slots@[j].name@ != t@,
            decreases self.slots@.len() - i,
        {
            if self.slots[i].name == *t {
                return Some(i);
            }
            i = i + 1;
        }
        proof {
            if self.model@.contains_key(t@) {
                let j = choose|j: int| 0 <= j < self.slots@.len() && #[trigger] self.slots@[j].name@ == t@;
                assert(self.slots@[j].name@ == t@);
            }
        }
        None
    }

    /// The value of `key` in `table`.
    pub fn get(&self, table: &str, key: &str) -> (r: Result<Option<Value>, KvError>)
        requires
            self.wf(),
        ensures
            r matches Ok(o) && opt_view(o) == lookup(table_of(self.view(), table@), key@),
    {
        let t = table.to_owned();
        let k = key.to_owned();
        match self.find_slot(&t) {
            Some(i) => {
                let pairs = &self.slots[i].pairs;
                match find_key(pairs, &k) {
                    Some(j) => Ok(Some(pairs[j].value.duplicate())),
                    None => {
                        assert(!self.model@[t@].contains_key(k@)) by {
                            if self.model@[t@].contains_key(k@) {
                                let j = choose|j: int| 0 <= j < pairs@.len() && #[trigger] pairs@[j].key@ == k@;
                            }
                        }
                        Ok(None)
                    },
                }
            },
            None => Ok(None),
        }
    }

    /// Gives `key` in `table` the value `value` and returns the value it had.
    /// The table is created when it is missing.
    pub fn set(&mut self, table: &str, key: &str, value: Value) -> (r: Result<Option<Value>, KvError>)
        requires
            old(self).wf(),
        ensures
            final(self).wf(),
            r matches Ok(o) && opt_view(o) == lookup(table_of(old(self).view(), table@), key@),
            final(self).view() == store_after_set(old(self).view(), table@, key@, value@),
    {
        let t = table.to_owned();
        let k = key.to_owned();
        let ghost tv = t@;
        let ghost kv = k@;
        let ghost vv = value@;
        match self.find_slot(&t) {
            Some(i) => {
                let ghost m = self.model@[tv];
                let prev = put_pair(&mut self.slots[i].pairs, k, value, Ghost(m));
                self.model = Ghost(self.model@.insert(tv, m.insert(kv, vv)));
                proof { self.lemma_slot_replaced(*old(self), i as int); }
                Ok(prev)
            },
            None => {
                let mut pairs: Vec<Kvpair> = Vec::new();
                pairs.push(Kvpair { key: k, value });
                self.slots.push(Slot { name: t, pairs });
                let ghost tm = table_of(old(self).model@, tv).insert(kv, vv);
                self.model = Ghost(self.model@.insert(tv, tm));
                proof {
                    let p = self.slots@.last().pairs@;
                    assert(tm == TableView::empty().insert(kv, vv));
                    assert forall|q: Seq<char>| tm.contains_key(q) implies exists|j: int|
                        0 <= j < p.len() && #[trigger] p[j].key@ == q by {
                        assert(p[0].key@ == q);
                    }
                    self.lemma_slot_pushed(*old(self));
                }
                Ok(None)
            },
        }
    }

    /// Whether `table` holds `key`.
    pub fn contains(&self, table: &str, key: &str) -> (r: Result<bool, KvError>)
        requires
            self.wf(),
        ensures
            r == Ok::<bool, KvError>(table_of(self.view(), table@).contains_key(key@)),
    {
        let t = table.to_owned();
        let k = key.to_owned();
        match self.find_slot(&t) {
            Some(i) => {
                let pairs = &self.slots[i].pairs;
                match find_key(pairs, &k) {
                    Some(_) => Ok(true),
                    None => {
                        assert(!self.model@[t@].contains_key(k@)) by {
                            if self.model@[t@].contains_key(k@) {
                                let j = choose|j: int| 0 <= j < pairs@.len() && #[trigger] pairs@[j].key@ == k@;
                            }
                        }
                        Ok(false)
                    },
                }
            },
            None => Ok(false),
        }
    }

    /// Removes `key` from `table` and returns the value it had. A table that
    /// becomes empty stays; a missing table is not created.
    pub fn del(&mut self, table: &str, key: &str) -> (r: Result<Option<Value>, KvError>)
        requires
            old(self).wf(),
        ensures
            final(self).wf(),
            r matches Ok(o) && opt_view(o) == lookup(table_of(old(self).view(), table@), key@),
            final(self).view() == store_after_del(old(self).view(), table@, key@),
    {
        let t = table.to_owned();
        let k = key.to_owned();
        let ghost tv = t@;
        match self.find_slot(&t) {
            Some(i) => {
                let ghost m = self.model@[tv];
                let prev = take_pair(&mut self.slots[i].pairs, &k, Ghost(m));
                self.model = Ghost(self.model@.insert(tv, m.remove(k@)));
                proof { self.lemma_slot_replaced(*old(self), i as int); }
                Ok(prev)
            },
            None => Ok(None),
        }
    }

    /// A copy of all pairs of `table`, in no particular order.
    pub fn get_all(&self, table: &str) -> (r: Result<Vec<Kvpair>, KvError>)
        requires
            self.wf(),
        ensures
            r matches Ok(v) && lists_exactly(v@, table_of(self.view(), table@)),
    {
        let t = table.to_owned();
        match self.find_slot(&t) {
            Some(i) => {
                let pairs = &self.slots[i].pairs;
                let out = copy_pairs(pairs);
                let ghost m = self.model@[t@];
                assert forall|a: int, b: int|
                    0 <= a < out@.len() && 0 <= b < out@.len() && a != b implies
                    #[trigger] out@[a].key@ != #[trigger] out@[b].key@ by {
                    assert(pairs@[a].key@ != pairs@[b].key@);
                }
                assert forall|q: Seq<char>| m.contains_key(q) implies exists|j: int|
                    0 <= j < out@.len() && #[trigger] out@[j].key@ == q by {
                    let j = choose|j: int| 0 <= j < pairs@.len() && #[trigger] pairs@[j].key@ == q;
                    assert(out@[j].key@ == q);
                }
                Ok(out)
            },
            None => {
                let out: Vec<Kvpair> = Vec::new();
                Ok(out)
            },
        }
    }

    /// An iterator over a snapshot of the pairs of `table`, in no particular
    /// order. Later changes to the table do not show in it.
    pub fn get_iter(&self, table: &str) -> (r: Result<std::vec::IntoIter<Kvpair>, KvError>)
        requires
            self.wf(),
        ensures
            r matches Ok(it) && lists_exactly(it.remaining(), table_of(self.view(), table@)),
    {
        match self.get_all(table) {
            Ok(v) => Ok(v.into_iter()),
            Err(e) => Err(e),
        }
    }

    /// The invariant still holds after the pairs of slot `i` changed and the
    /// model's entry for that slot's table was updated to match.
    proof fn lemma_slot_replaced(&self, prev: MemTable, i: int)
        requires
            prev.wf(),
            0 <= i < prev.slots@.len(),
            self.slots@.len() == prev.slots@.len(),
            self.slots@[i].name@ == prev.slots@[i].name@,
            forall|j: int| 0 <= j < self.slots@.len() && j != i ==> self.slots@[j] == prev.slots@[j],
            self.model@ == prev.model@.insert(prev.slots@[i].name@, self.model@[prev.slots@[i].name@]),
            lists_exactly(self.slots@[i].pairs@, self.model@[prev.slots@[i].name@]),
        ensures
            self.wf(),
    {
        let s = self.slots@;
        let t = prev.slots@[i].name@;
        assert forall|a: int, b: int|
            0 <= a < s.len() && 0 <= b < s.len() && a != b implies #[trigger] s[a].name@ != #[trigger] s[b].name@ by {
            assert(prev.slots@[a].name@ != prev.slots@[b].name@);
        }
        assert forall|j: int| 0 <= j < s.len() implies self.model@.contains_key(#[trigger] s[j].name@)
            && lists_exactly(s[j].pairs@, self.model@[s[j].name@]) by {
            if j != i {
                assert(prev.slots@[j].name@ != prev.slots@[i].name@);
            }
        }
        assert forall|q: Seq<char>| self.model@.contains_key(q) implies exists|j: int|
            0 <= j < s.len() && #[trigger] s[j].name@ == q by {
            if q == t {
                assert(s[i].name@ == q);
            } else {
                let j = choose|j: int| 0 <= j < prev.slots@.len() && #[trigger] prev.slots@[j].name@ == q;
                assert(s[j].name@ == q);
            }
        }
    }

    /// The invariant still holds after a slot for a new table was pushed and
    /// the model was given that table.
    proof fn lemma_slot_pushed(&self, prev: MemTable)
        requires
            prev.wf(),
            self.slots@.len() == prev.slots@.len() + 1,
            forall|j: int| 0 <= j < prev.slots@.len() ==> self.slots@[j] == prev.slots@[j],
            !prev.model@.contains_key(self.slots@.last().name@),
            self.model@ == prev.model@.insert(self.slots@.last().name@, self.model@[self.slots@.last().name@]),
            lists_exactly(self.slots@.last().pairs@, self.model@[self.slots@.last().name@]),
        ensures
            self.wf(),
    {
        let s = self.slots@;
        let n = prev.slots@.len() as int;
        let t = s[n].name@;
        assert forall|a: int, b: int|
            0 <= a < s.len() && 0 <= b < s.len() && a != b implies #[trigger] s[a].name@ != #[trigger] s[b].name@ by {
            if a < n && b < n {
                assert(prev.slots@[a].name@ != prev.slots@[b].name@);
            } else if a < n {
                assert(prev.model@.contains_key(prev.slots@[a].name@));
            } else {
                assert(prev.model@.contains_key(prev.slots@[b].name@));
            }
        }
        assert forall|j: int| 0 <= j < s.len() implies self.model@.contains_key(#[trigger] s[j].name@)
            && lists_exactly(s[j].pairs@, self.model@[s[j].name@]) by {
            if j < n {
                assert(prev.model@.contains_key(prev.slots@[j].name@));
                assert(s[j].name@ != t);
            }
        }
        assert forall|q: Seq<char>| self.model@.contains_key(q) implies exists|j: int|
            0 <= j < s.len() && #[trigger] s[j].name@ == q by {
            if q == t {
                assert(s[n].name@ == q);
            } else {
                let j = choose|j: int| 0 <= j < prev.slots@.len() && #[trigger] prev.slots@[j].name@ == q;
                assert(s[j].name@ == q);
            }
        }
    }
}

impl Storage for MemTable {
    open spec fn contents(&self) -> StoreView {
        self.view()
    }

    open spec fn inv(&self) -> bool {
        self.wf()
    }

    fn get(&self, table: &str, key: &str) -> (r: Result<Option<Value>, KvError>)
        ensures
            r is Ok,
    {
        MemTable::get(self, table, key)
    }

    fn set(&mut self, table: &str, key: &str, value: Value) -> (r: Result<Option<Value>, KvError>)
        ensures
            r is Ok,
    {
        MemTable::set(self, table, key, value)
    }

    fn contains(&self, table: &str, key: &str) -> (r: Result<bool, KvError>)
        ensures
            r is Ok,
    {
        MemTable::contains(self, table, key)
    }

    fn del(&mut self, table: &str, key: &str) -> (r: Result<Option<Value>, KvError>)
        ensures
            r is Ok,
    {
        MemTable::del(self, table, key)
    }

    fn get_all(&self, table: &str) -> (r: Result<Vec<Kvpair>, KvError>)
        ensures
            r is Ok,
    {
        MemTable::get_all(self, table)
    }

    fn get_iter(&self, table: &str) -> (r: Result<std::vec::IntoIter<Kvpair>, KvError>)
        ensures
            r is Ok,
    {
        MemTable::get_iter(self, table)
    }
}

} // verus!

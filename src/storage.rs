use vstd::prelude::*;

use crate::value::{opt_view, KvError, Kvpair, Value, ValueView};
use vstd::std_specs::iter::IteratorSpec;

verus! {

/// The contents of one table: each key with its value.
pub type TableView = Map<Seq<char>, ValueView>;

/// The contents of a whole store: each table name with its table.
pub type StoreView = Map<Seq<char>, TableView>;

/// The value that `key` has in `m`, if any.
pub open spec fn lookup(m: TableView, key: Seq<char>) -> Option<ValueView> {
    if m.contains_key(key) {
        Some(m[key])
    } else {
        None
    }
}

/// The table named `t` in `db`. A table that was never created reads as an
/// empty one.
pub open spec fn table_of(db: StoreView, t: Seq<char>) -> TableView {
    if db.contains_key(t) {
        db[t]
    } else {
        Map::empty()
    }
}

/// No key occurs twice in `s`.
pub open spec fn keys_unique(s: Seq<Kvpair>) -> bool {
    forall|i: int, j: int|
        0 <= i < s.len() && 0 <= j < s.len() && i != j ==> #[trigger] s[i].key@ != #[trigger] s[j].key@
}

/// `s` holds exactly the entries of `m`, each key once, in some order.
pub open spec fn lists_exactly(s: Seq<Kvpair>, m: TableView) -> bool {
    &&& keys_unique(s)
    &&& forall|i: int|
        0 <= i < s.len() ==> m.contains_key(#[trigger] s[i].key@) && m[s[i].key@] == s[i].value@
    &&& forall|k: Seq<char>|
        m.contains_key(k) ==> exists|i: int| 0 <= i < s.len() && #[trigger] s[i].key@ == k
}

/// The table `t` of `db` after `key` was given `value`; the table is created
/// when it was missing.
pub open spec fn store_after_set(db: StoreView, t: Seq<char>, key: Seq<char>, value: ValueView) -> StoreView {
    db.insert(t, table_of(db, t).insert(key, value))
}

/// `db` after `key` was removed from table `t`. A missing table stays missing;
/// a table that becomes empty stays.
pub open spec fn store_after_del(db: StoreView, t: Seq<char>, key: Seq<char>) -> StoreView {
    if db.contains_key(t) {
        db.insert(t, db[t].remove(key))
    } else {
        db
    }
}

/// The operations that every storage backend offers: tables of keys and
/// values, each table named by a string.
///
/// Absence of data is never a failure: a missing key or table gives `None`,
/// `false` or nothing. An `Err` is a fault of the backend, and an operation
/// that fails leaves the contents as they were.
pub trait Storage {
    /// The contents of the backend.
    spec fn contents(&self) -> StoreView;

    /// The backend's internal invariant.
    spec fn inv(&self) -> bool;

    /// The value of `key` in `table`.
    fn get(&self, table: &str, key: &str) -> (r: Result<Option<Value>, KvError>)
        requires
            self.inv(),
        ensures
            r matches Ok(o) ==> opt_view(o) == lookup(table_of(self.contents(), table@), key@),
    ;

    /// Gives `key` in `table` the value `value`, creating the table when it is
    /// missing, and returns the value it had before.
    fn set(&mut self, table: &str, key: &str, value: Value) -> (r: Result<Option<Value>, KvError>)
        requires
            old(self).inv(),
        ensures
            final(self).inv(),
            r matches Ok(o) ==> {
                &&& opt_view(o) == lookup(table_of(old(self).contents(), table@), key@)
                &&& final(self).contents() == store_after_set(old(self).contents(), table@, key@, value@)
            },
            r is Err ==> final(self).contents() == old(self).contents(),
    ;

    /// Whether `table` holds `key`.
    fn contains(&self, table: &str, key: &str) -> (r: Result<bool, KvError>)
        requires
            self.inv(),
        ensures
            r matches Ok(b) ==> b == table_of(self.contents(), table@).contains_key(key@),
    ;

    /// Removes `key` from `table` and returns the value it had.
    fn del(&mut self, table: &str, key: &str) -> (r: Result<Option<Value>, KvError>)
        requires
            old(self).inv(),
        ensures
            final(self).inv(),
            r matches Ok(o) ==> {
                &&& opt_view(o) == lookup(table_of(old(self).contents(), table@), key@)
                &&& final(self).contents() == store_after_del(old(self).contents(), table@, key@)
            },
            r is Err ==> final(self).contents() == old(self).contents(),
    ;

    /// A copy of all pairs of `table`, in no particular order.
    fn get_all(&self, table: &str) -> (r: Result<Vec<Kvpair>, KvError>)
        requires
            self.inv(),
        ensures
            r matches Ok(v) ==> lists_exactly(v@, table_of(self.contents(), table@)),
    ;

    /// An iterator over a snapshot of the pairs of `table`, in no particular
    /// order. Later changes to the table do not show in it.
    fn get_iter(&self, table: &str) -> (r: Result<std::vec::IntoIter<Kvpair>, KvError>)
        requires
            self.inv(),
        ensures
            r matches Ok(it) ==> lists_exactly(it.remaining(), table_of(self.contents(), table@)),
    ;
}

/// The index of the pair with key `key` in `pairs`, if there is one.
pub(crate) fn find_key(pairs: &Vec<Kvpair>, key: &String) -> (r: Option<usize>)
    ensures
        match r {
            Some(i) => i < pairs@.len() && pairs@[i as int].key@ == key@,
            None => forall|i: int| 0 <= i < pairs@.len() ==> pairs@[i].key@ != key@,
        },
{
    let mut i: usize = 0;
    while i < pairs.len()
        invariant
            i <= pairs@.len(),
            forall|j: int| 0 <= j < i ==> pairs@[j].key@ != key@,
        decreases pairs@.len() - i,
    {
        if pairs[i].key == *key {
            return Some(i);
        }
        i = i + 1;
    }
    None
}

/// Gives `key` the value `value` in the table that `pairs` lists, and returns
/// the value it had.
pub(crate) fn put_pair(pairs: &mut Vec<Kvpair>, key: String, value: Value, Ghost(m): Ghost<TableView>) -> (r: Option<Value>)
    requires
        lists_exactly(old(pairs)@, m),
    ensures
        lists_exactly(final(pairs)@, m.insert(key@, value@)),
        opt_view(r) == lookup(m, key@),
{
    let ghost k = key@;
    let ghost v = value@;
    match find_key(pairs, &key) {
        Some(i) => {
            let mut entry = Kvpair { key, value };
            std::mem::swap(&mut pairs[i], &mut entry);
            let ghost n = m.insert(k, v);
            assert forall|j: int| 0 <= j < pairs@.len() implies n.contains_key(#[trigger] pairs@[j].key@)
                && n[pairs@[j].key@] == pairs@[j].value@ by {
                if j != i {
                    assert(old(pairs)@[j].key@ != old(pairs)@[i as int].key@);
                }
            }
            assert forall|q: Seq<char>| n.contains_key(q) implies exists|j: int|
                0 <= j < pairs@.len() && #[trigger] pairs@[j].key@ == q by {
                if q != k {
                    let j = choose|j: int| 0 <= j < old(pairs)@.len() && #[trigger] old(pairs)@[j].key@ == q;
                    assert(pairs@[j].key@ == q);
                } else {
                    assert(pairs@[i as int].key@ == q);
                }
            }
            Some(entry.value)
        },
        None => {
            pairs.push(Kvpair { key, value });
            let ghost n = m.insert(k, v);
            let ghost last = pairs@.len() - 1;
            assert forall|q: Seq<char>| n.contains_key(q) implies exists|j: int|
                0 <= j < pairs@.len() && #[trigger] pairs@[j].key@ == q by {
                if q != k {
                    let j = choose|j: int| 0 <= j < old(pairs)@.len() && #[trigger] old(pairs)@[j].key@ == q;
                    assert(pairs@[j].key@ == q);
                } else {
                    assert(pairs@[last].key@ == q);
                }
            }
            assert(!m.contains_key(k)) by {
                if m.contains_key(k) {
                    let j = choose|j: int| 0 <= j < old(pairs)@.len() && #[trigger] old(pairs)@[j].key@ == k;
                }
            }
            None
        },
    }
}

/// Removes `key` from the table that `pairs` lists, and returns the value it
/// had.
pub(crate) fn take_pair(pairs: &mut Vec<Kvpair>, key: &String, Ghost(m): Ghost<TableView>) -> (r: Option<Value>)
    requires
        lists_exactly(old(pairs)@, m),
    ensures
        lists_exactly(final(pairs)@, m.remove(key@)),
        opt_view(r) == lookup(m, key@),
{
    match find_key(pairs, key) {
        Some(i) => {
            let entry = pairs.remove(i);
            let ghost n = m.remove(key@);
            let ghost o = old(pairs)@;
            assert forall|a: int, b: int|
                0 <= a < pairs@.len() && 0 <= b < pairs@.len() && a != b implies
                #[trigger] pairs@[a].key@ != #[trigger] pairs@[b].key@ by {
                let a2 = if a < i { a } else { a + 1 };
                let b2 = if b < i { b } else { b + 1 };
                assert(pairs@[a] == o[a2]);
                assert(pairs@[b] == o[b2]);
            }
            assert forall|j: int| 0 <= j < pairs@.len() implies n.contains_key(#[trigger] pairs@[j].key@)
                && n[pairs@[j].key@] == pairs@[j].value@ by {
                let j2 = if j < i { j } else { j + 1 };
                assert(pairs@[j] == o[j2]);
                assert(o[j2].key@ != o[i as int].key@);
            }
            assert forall|q: Seq<char>| n.contains_key(q) implies exists|j: int|
                0 <= j < pairs@.len() && #[trigger] pairs@[j].key@ == q by {
                let j = choose|j: int| 0 <= j < o.len() && #[trigger] o[j].key@ == q;
                if j < i {
                    assert(pairs@[j].key@ == q);
                } else {
                    assert(j != i);
                    assert(pairs@[j - 1].key@ == q);
                }
            }
            Some(entry.value)
        },
        None => {
            assert(!m.contains_key(key@)) by {
                if m.contains_key(key@) {
                    let j = choose|j: int| 0 <= j < old(pairs)@.len() && #[trigger] old(pairs)@[j].key@ == key@;
                }
            }
            assert(m.remove(key@) =~= m);
            None
        },
    }
}

/// A copy of every pair in `pairs`.
pub(crate) fn copy_pairs(pairs: &Vec<Kvpair>) -> (r: Vec<Kvpair>)
    ensures
        r@.len() == pairs@.len(),
        forall|i: int| 0 <= i < pairs@.len() ==> #[trigger] r@[i].key@ == pairs@[i].key@ && r@[i].value@ == pairs@[i].value@,
{
    let mut out: Vec<Kvpair> = Vec::new();
    let mut i: usize = 0;
    while i < pairs.len()
        invariant
            i <= pairs@.len(),
            out@.len() == i,
            forall|j: int| 0 <= j < i ==> #[trigger] out@[j].key@ == pairs@[j].key@ && out@[j].value@ == pairs@[j].value@,
        decreases pairs@.len() - i,
    {
        let entry = &pairs[i];
        out.push(Kvpair { key: entry.key.clone(), value: entry.value.duplicate() });
        i = i + 1;
    }
    out
}

} // verus!

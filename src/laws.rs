use vstd::prelude::*;

use crate::storage::{lists_exactly, lookup, store_after_del, store_after_set, table_of, StoreView};
use crate::value::{Kvpair, ValueView};

verus! {

/// A change made to a store: a `set` or a `del`.
pub enum StoreOp {
    SetKey(Seq<char>, Seq<char>, ValueView),
    DelKey(Seq<char>, Seq<char>),
}

/// The store after one change.
pub open spec fn apply_op(db: StoreView, op: StoreOp) -> StoreView {
    match op {
        StoreOp::SetKey(t, k, v) => store_after_set(db, t, k, v),
        StoreOp::DelKey(t, k) => store_after_del(db, t, k),
    }
}

/// The store after a series of changes, the first applied first.
pub open spec fn replay(db: StoreView, ops: Seq<StoreOp>) -> StoreView
    decreases ops.len(),
{
    if ops.len() == 0 {
        db
    } else {
        apply_op(replay(db, ops.drop_last()), ops.last())
    }
}

/// Whether `op` sets key `k` of table `t`.
pub open spec fn sets_key(op: StoreOp, t: Seq<char>, k: Seq<char>) -> bool {
    match op {
        StoreOp::SetKey(t2, k2, _) => t2 == t && k2 == k,
        StoreOp::DelKey(_, _) => false,
    }
}

/// Starting from an empty store, a key that no change has set is absent:
/// reading it gives nothing and the table does not contain it.
pub proof fn lemma_unset_key_is_absent(ops: Seq<StoreOp>, t: Seq<char>, k: Seq<char>)
    requires
        forall|i: int| 0 <= i < ops.len() ==> !sets_key(#[trigger] ops[i], t, k),
    ensures
        lookup(table_of(replay(StoreView::empty(), ops), t), k) is None,
        !table_of(replay(StoreView::empty(), ops), t).contains_key(k),
    decreases ops.len(),
{
    if ops.len() > 0 {
        let init = ops.drop_last();
        assert forall|i: int| 0 <= i < init.len() implies !sets_key(#[trigger] init[i], t, k) by {
            assert(init[i] == ops[i]);
        }
        lemma_unset_key_is_absent(init, t, k);
        assert(!sets_key(ops[ops.len() - 1], t, k));
    }
}

/// The first `set` of a key finds nothing; a second `set` finds the first
/// value; a read after that gives the second value.
pub proof fn lemma_set_returns_previous(db: StoreView, t: Seq<char>, k: Seq<char>, v1: ValueView, v2: ValueView)
    requires
        !table_of(db, t).contains_key(k),
    ensures
        lookup(table_of(db, t), k) is None,
        lookup(table_of(store_after_set(db, t, k, v1), t), k) == Some(v1),
        lookup(table_of(store_after_set(store_after_set(db, t, k, v1), t, k, v2), t), k) == Some(v2),
{
}

/// A `del` right after a `set` finds the value that was set; a second `del`
/// finds nothing.
pub proof fn lemma_del_after_set(db: StoreView, t: Seq<char>, k: Seq<char>, v: ValueView)
    ensures
        lookup(table_of(store_after_set(db, t, k, v), t), k) == Some(v),
        lookup(table_of(store_after_del(store_after_set(db, t, k, v), t, k), t), k) is None,
{
}

/// A table that was never created reads as empty, and a `del` on it finds
/// nothing and changes nothing.
pub proof fn lemma_missing_table_is_empty(db: StoreView, t: Seq<char>, k: Seq<char>)
    requires
        !db.contains_key(t),
    ensures
        lookup(table_of(db, t), k) is None,
        !table_of(db, t).contains_key(k),
        store_after_del(db, t, k) == db,
{
}

/// The next value of a counter whose current value is `v`: one more than an
/// integer, and 1 for anything else.
pub open spec fn next_count(v: Option<ValueView>) -> i64 {
    match v {
        Some(ValueView::Int(n)) => (n + 1) as i64,
        _ => 1,
    }
}

/// `db` after one read-modify-write of the counter at key `k` of table `t`,
/// done as one step.
pub open spec fn bump(db: StoreView, t: Seq<char>, k: Seq<char>) -> StoreView {
    store_after_set(db, t, k, ValueView::Int(next_count(lookup(table_of(db, t), k))))
}

/// `db` after `n` such read-modify-writes.
pub open spec fn bump_n(db: StoreView, t: Seq<char>, k: Seq<char>, n: nat) -> StoreView
    decreases n,
{
    if n == 0 {
        db
    } else {
        bump(bump_n(db, t, k, (n - 1) as nat), t, k)
    }
}

/// When each read-modify-write of a counter runs as one step, none is lost:
/// starting from an unset key, `n` of them leave the value `n`.
pub proof fn lemma_counter_counts_every_update(db: StoreView, t: Seq<char>, k: Seq<char>, n: nat)
    requires
        lookup(table_of(db, t), k) is None,
        0 < n <= i64::MAX,
    ensures
        lookup(table_of(bump_n(db, t, k, n), t), k) == Some(ValueView::Int(n as i64)),
    decreases n,
{
    let prev = bump_n(db, t, k, (n - 1) as nat);
    assert(bump_n(db, t, k, n) == bump(prev, t, k));
    if n > 1 {
        lemma_counter_counts_every_update(db, t, k, (n - 1) as nat);
        assert(next_count(lookup(table_of(prev, t), k)) == n as i64);
    } else {
        assert(prev == db);
    }
}

/// Whether the listing `s` holds the pair `p`.
pub open spec fn has_pair(s: Seq<Kvpair>, p: (Seq<char>, ValueView)) -> bool {
    exists|j: int| 0 <= j < s.len() && #[trigger] s[j]@ == p
}

/// Two listings of one table hold the same pairs: what `get_iter` yields is
/// what `get_all` returns, up to order.
pub proof fn lemma_listings_agree(a: Seq<Kvpair>, b: Seq<Kvpair>, m: Map<Seq<char>, ValueView>)
    requires
        lists_exactly(a, m),
        lists_exactly(b, m),
    ensures
        a.len() == b.len(),
        forall|i: int| 0 <= i < a.len() ==> has_pair(b, #[trigger] a[i]@),
        forall|j: int| 0 <= j < b.len() ==> has_pair(a, #[trigger] b[j]@),
{
    assert forall|i: int| 0 <= i < a.len() implies has_pair(b, #[trigger] a[i]@) by {
        let j = choose|j: int| 0 <= j < b.len() && #[trigger] b[j].key@ == a[i].key@;
        assert(b[j]@ == a[i]@);
    }
    assert forall|j: int| 0 <= j < b.len() implies has_pair(a, #[trigger] b[j]@) by {
        let i = choose|i: int| 0 <= i < a.len() && #[trigger] a[i].key@ == b[j].key@;
        assert(a[i]@ == b[j]@);
    }
    lemma_listing_len(a, m);
    lemma_listing_len(b, m);
}

/// A listing has as many pairs as the table has keys.
pub proof fn lemma_listing_len(s: Seq<Kvpair>, m: Map<Seq<char>, ValueView>)
    requires
        lists_exactly(s, m),
    ensures
        m.dom().finite(),
        m.dom().len() == s.len(),
    decreases s.len(),
{
    if s.len() == 0 {
        assert(m.dom() =~= Set::empty());
    } else {
        let last = s.last();
        let init = s.drop_last();
        let n = m.remove(last.key@);
        assert forall|i: int| 0 <= i < init.len() implies n.contains_key(#[trigger] init[i].key@)
            && n[init[i].key@] == init[i].value@ by {
            assert(init[i] == s[i]);
            assert(s[i].key@ != s[s.len() - 1].key@);
        }
        assert forall|k: Seq<char>| n.contains_key(k) implies exists|i: int| 0 <= i < init.len() && #[trigger] init[i].key@ == k by {
            let i = choose|i: int| 0 <= i < s.len() && #[trigger] s[i].key@ == k;
            assert(i != s.len() - 1);
            assert(init[i].key@ == k);
        }
        assert forall|a: int, b: int| 0 <= a < init.len() && 0 <= b < init.len() && a != b implies
            #[trigger] init[a].key@ != #[trigger] init[b].key@ by {
            assert(s[a].key@ != s[b].key@);
        }
        lemma_listing_len(init, n);
        assert(m.contains_key(last.key@));
        assert(m.dom() =~= n.dom().insert(last.key@));
    }
}

} // verus!

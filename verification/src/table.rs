//! Lists in the order of a key, one entry per key.
use crate::model::{views, Model};
use crate::order::{before, lemma_before_irreflexive, lemma_before_total, lemma_before_transitive, text_before};
use crate::text::same;
use vstd::prelude::*;

verus! {

// ---------------------------------------------------------------------------
// Tables by identifier
// ---------------------------------------------------------------------------

/// An entry that is found by an identifier.
pub trait ById: Model {
    spec fn id_of(v: Self::V) -> u128;

    /// The identifier of the entry.
    fn id(&self) -> (r: u128)
        ensures
            r == Self::id_of(self@),
    ;
}

/// The place of an identifier: behind all leading entries with a smaller one.
pub open spec fn id_slot<T: ById>(s: Seq<T::V>, key: u128) -> int
    decreases s.len(),
{
    if s.len() == 0 || T::id_of(s[0]) >= key {
        0
    } else {
        1 + id_slot::<T>(s.drop_first(), key)
    }
}

/// The entry of an identifier.
pub open spec fn id_get<T: ById>(s: Seq<T::V>, key: u128) -> Option<T::V> {
    let i = id_slot::<T>(s, key);
    if i < s.len() && T::id_of(s[i]) == key {
        Some(s[i])
    } else {
        None
    }
}

/// The table with an entry put in the place of its identifier.
pub open spec fn id_put<T: ById>(s: Seq<T::V>, v: T::V) -> Seq<T::V> {
    let i = id_slot::<T>(s, T::id_of(v));
    if i < s.len() && T::id_of(s[i]) == T::id_of(v) {
        s.update(i, v)
    } else {
        s.insert(i, v)
    }
}

/// The table without the entry of an identifier.
pub open spec fn id_cut<T: ById>(s: Seq<T::V>, key: u128) -> Seq<T::V> {
    let i = id_slot::<T>(s, key);
    if i < s.len() && T::id_of(s[i]) == key {
        s.remove(i)
    } else {
        s
    }
}

/// Whether a table is in strictly ascending order of its identifiers.
pub open spec fn id_sorted<T: ById>(s: Seq<T::V>) -> bool {
    forall|i: int, j: int| 0 <= i < j < s.len() ==> T::id_of(#[trigger] s[i]) < T::id_of(#[trigger] s[j])
}

pub proof fn lemma_id_slot<T: ById>(s: Seq<T::V>, key: u128)
    ensures
        0 <= id_slot::<T>(s, key) <= s.len(),
        forall|k: int| 0 <= k < id_slot::<T>(s, key) ==> T::id_of(#[trigger] s[k]) < key,
        id_slot::<T>(s, key) < s.len() ==> T::id_of(s[id_slot::<T>(s, key)]) >= key,
    decreases s.len(),
{
    if s.len() > 0 && T::id_of(s[0]) < key {
        let rest = s.drop_first();
        lemma_id_slot::<T>(rest, key);
        let n = id_slot::<T>(s, key);
        assert forall|k: int| 0 <= k < n implies T::id_of(#[trigger] s[k]) < key by {
            if k > 0 {
                assert(s[k] == rest[k - 1]);
            }
        }
        if n < s.len() {
            assert(s[n] == rest[n - 1]);
        }
    }
}

proof fn lemma_id_slot_at<T: ById>(s: Seq<T::V>, key: u128, n: int)
    requires
        0 <= n <= s.len(),
        forall|k: int| 0 <= k < n ==> T::id_of(#[trigger] s[k]) < key,
        n < s.len() ==> T::id_of(s[n]) >= key,
    ensures
        id_slot::<T>(s, key) == n,
    decreases n,
{
    if n > 0 {
        let rest = s.drop_first();
        assert forall|k: int| 0 <= k < n - 1 implies T::id_of(#[trigger] rest[k]) < key by {
            assert(rest[k] == s[k + 1]);
        }
        assert(T::id_of(s[0]) < key);
        lemma_id_slot_at::<T>(rest, key, n - 1);
    }
}

/// Putting an entry keeps the order.
pub proof fn lemma_id_put_sorted<T: ById>(s: Seq<T::V>, v: T::V)
    requires
        id_sorted::<T>(s),
    ensures
        id_sorted::<T>(id_put::<T>(s, v)),
{
    let key = T::id_of(v);
    lemma_id_slot::<T>(s, key);
    let n = id_slot::<T>(s, key);
    let r = id_put::<T>(s, v);
    assert forall|i: int, j: int| 0 <= i < j < r.len() implies T::id_of(#[trigger] r[i]) < T::id_of(
        #[trigger] r[j],
    ) by {
        if n < s.len() && T::id_of(s[n]) == key {
        } else {
            let si = if i < n {
                i
            } else {
                i - 1
            };
            let sj = if j < n {
                j
            } else {
                j - 1
            };
            if i == n {
                assert(r[j] == s[sj]);
                if sj > n {
                    assert(T::id_of(s[n]) < T::id_of(s[sj]));
                }
            } else if j == n {
                assert(r[i] == s[si]);
            } else {
                assert(r[i] == s[si] && r[j] == s[sj]);
            }
        }
    }
}

/// Removing an entry keeps the order.
pub proof fn lemma_id_cut_sorted<T: ById>(s: Seq<T::V>, key: u128)
    requires
        id_sorted::<T>(s),
    ensures
        id_sorted::<T>(id_cut::<T>(s, key)),
        id_get::<T>(id_cut::<T>(s, key), key) is None,
{
    lemma_id_slot::<T>(s, key);
    let n = id_slot::<T>(s, key);
    let r = id_cut::<T>(s, key);
    assert forall|i: int, j: int| 0 <= i < j < r.len() implies T::id_of(#[trigger] r[i]) < T::id_of(
        #[trigger] r[j],
    ) by {
        if n < s.len() && T::id_of(s[n]) == key {
            let si = if i < n {
                i
            } else {
                i + 1
            };
            let sj = if j < n {
                j
            } else {
                j + 1
            };
            assert(r[i] == s[si] && r[j] == s[sj]);
        }
    }
    lemma_id_slot::<T>(r, key);
    let m = id_slot::<T>(r, key);
    if m < r.len() && T::id_of(r[m]) == key {
        if n < s.len() && T::id_of(s[n]) == key {
            let sm = if m < n {
                m
            } else {
                m + 1
            };
            assert(r[m] == s[sm]);
        }
    }
}

/// An entry that was put is found, and no other entry changes.
pub proof fn lemma_id_put_get<T: ById>(s: Seq<T::V>, v: T::V, key: u128)
    requires
        id_sorted::<T>(s),
    ensures
        id_get::<T>(id_put::<T>(s, v), key) == (if key == T::id_of(v) {
            Some(v)
        } else {
            id_get::<T>(s, key)
        }),
{
    let r = id_put::<T>(s, v);
    let at = T::id_of(v);
    lemma_id_put_sorted::<T>(s, v);
    lemma_id_slot::<T>(s, at);
    lemma_id_slot::<T>(s, key);
    let n = id_slot::<T>(s, at);
    let m = id_slot::<T>(s, key);
    if n < s.len() && T::id_of(s[n]) == at {
        assert forall|k: int| 0 <= k < m implies T::id_of(#[trigger] r[k]) < key by {
            assert(T::id_of(s[k]) < key);
        }
        lemma_id_slot_at::<T>(r, key, m);
    } else {
        let k2 = if key <= at {
            m
        } else {
            m + 1
        };
        assert forall|k: int| 0 <= k < k2 implies T::id_of(#[trigger] r[k]) < key by {
            if k < n {
                assert(r[k] == s[k]);
                if key > at && k >= m {
                    assert(T::id_of(s[k]) < at);
                }
            } else if k == n {
                if key <= at {
                    assert(T::id_of(s[n]) < key);
                }
            } else {
                assert(r[k] == s[k - 1]);
            }
        }
        if k2 < r.len() {
            if k2 < n {
                assert(r[k2] == s[k2]);
            } else if k2 > n {
                assert(r[k2] == s[k2 - 1]);
            }
        }
        if key > at {
            assert(n <= m) by {
                if m < n {
                    assert(T::id_of(s[m]) < at);
                }
            }
        } else if key < at {
            assert(m <= n) by {
                if m > n {
                    assert(T::id_of(s[n]) < key);
                }
            }
        } else {
            assert(m == n);
        }
        lemma_id_slot_at::<T>(r, key, k2);
    }
}

/// Removing an entry changes no other entry.
pub proof fn lemma_id_cut_get<T: ById>(s: Seq<T::V>, at: u128, key: u128)
    requires
        id_sorted::<T>(s),
        key != at,
    ensures
        id_get::<T>(id_cut::<T>(s, at), key) == id_get::<T>(s, key),
{
    let r = id_cut::<T>(s, at);
    lemma_id_slot::<T>(s, at);
    lemma_id_slot::<T>(s, key);
    let n = id_slot::<T>(s, at);
    let m = id_slot::<T>(s, key);
    if n < s.len() && T::id_of(s[n]) == at {
        let k2 = if m <= n {
            m
        } else {
            m - 1
        };
        assert forall|k: int| 0 <= k < k2 implies T::id_of(#[trigger] r[k]) < key by {
            let sk = if k < n {
                k
            } else {
                k + 1
            };
            assert(r[k] == s[sk]);
        }
        if k2 < r.len() {
            let sk = if k2 < n {
                k2
            } else {
                k2 + 1
            };
            assert(r[k2] == s[sk]);
            if m == n {
                assert(T::id_of(s[n]) < T::id_of(s[n + 1]));
            }
        }
        lemma_id_slot_at::<T>(r, key, k2);
    }
}

fn find_id_slot<T: ById>(v: &Vec<T>, key: u128) -> (r: usize)
    ensures
        r == id_slot::<T>(views(v@), key),
        r <= v.len(),
{
    let ghost s = views(v@);
    let mut i: usize = 0;
    while i < v.len()
        invariant
            s == views(v@),
            i <= v.len(),
            forall|k: int| 0 <= k < i ==> T::id_of(#[trigger] s[k]) < key,
        decreases v.len() - i,
    {
        let id: u128 = v[i].id();
        assert(s[i as int] == v@[i as int]@);
        if id >= key {
            proof {
                lemma_id_slot_at::<T>(s, key, i as int);
            }
            return i;
        }
        i = i + 1;
    }
    proof {
        lemma_id_slot_at::<T>(s, key, i as int);
    }
    i
}

/// The index of the entry of an identifier.
pub fn find_id<T: ById>(v: &Vec<T>, key: u128) -> (r: Option<usize>)
    ensures
        match r {
            Some(i) => i < v.len() && i == id_slot::<T>(views(v@), key) && id_get::<T>(
                views(v@),
                key,
            ) == Some(v@[i as int]@),
            None => id_get::<T>(views(v@), key) is None,
        },
{
    let i: usize = find_id_slot(v, key);
    if i < v.len() {
        let id: u128 = v[i].id();
        assert(views(v@)[i as int] == v@[i as int]@);
        if id == key {
            return Some(i);
        }
    }
    None
}

/// Puts an entry in the place of its identifier.
pub fn put_id<T: ById>(v: &mut Vec<T>, x: T)
    ensures
        views(final(v)@) == id_put::<T>(views(old(v)@), x@),
{
    let key: u128 = x.id();
    let ghost s = views(v@);
    let i: usize = find_id_slot(v, key);
    let ghost xv = x@;
    if i < v.len() {
        let id: u128 = v[i].id();
        assert(s[i as int] == v@[i as int]@);
        if id == key {
            v.set(i, x);
            assert(views(v@) =~= s.update(i as int, xv));
            return ;
        }
    }
    v.insert(i, x);
    assert(views(v@) =~= s.insert(i as int, xv));
}

/// Removes the entry of an identifier; whether there was one.
pub fn cut_id<T: ById>(v: &mut Vec<T>, key: u128) -> (r: bool)
    ensures
        views(final(v)@) == id_cut::<T>(views(old(v)@), key),
        r == (id_get::<T>(views(old(v)@), key) is Some),
{
    let ghost s = views(v@);
    let i: usize = find_id_slot(v, key);
    if i < v.len() {
        let id: u128 = v[i].id();
        assert(s[i as int] == v@[i as int]@);
        if id == key {
            let _ = v.remove(i);
            assert(views(v@) =~= s.remove(i as int));
            return true;
        }
    }
    false
}

// ---------------------------------------------------------------------------
// Sorting by identifier
// ---------------------------------------------------------------------------

/// The number of leading entries that an entry is put behind: those whose identifiers are not
/// greater.
pub open spec fn id_behind<T: ById>(s: Seq<T::V>, key: u128) -> int
    decreases s.len(),
{
    if s.len() == 0 || key < T::id_of(s[0]) {
        0
    } else {
        1 + id_behind::<T>(s.drop_first(), key)
    }
}

/// The entries in the order of their identifiers; those with equal identifiers stay as they
/// were.
pub open spec fn id_sort<T: ById>(s: Seq<T::V>) -> Seq<T::V>
    decreases s.len(),
{
    if s.len() == 0 {
        s
    } else {
        let head = id_sort::<T>(s.drop_last());
        head.insert(id_behind::<T>(head, T::id_of(s.last())), s.last())
    }
}

proof fn lemma_id_behind<T: ById>(s: Seq<T::V>, key: u128)
    ensures
        0 <= id_behind::<T>(s, key) <= s.len(),
        forall|k: int| 0 <= k < id_behind::<T>(s, key) ==> T::id_of(#[trigger] s[k]) <= key,
        id_behind::<T>(s, key) < s.len() ==> key < T::id_of(s[id_behind::<T>(s, key)]),
    decreases s.len(),
{
    if s.len() > 0 && T::id_of(s[0]) <= key {
        let rest = s.drop_first();
        lemma_id_behind::<T>(rest, key);
        assert forall|k: int| 0 <= k < id_behind::<T>(s, key) implies T::id_of(#[trigger] s[k])
            <= key by {
            if k > 0 {
                assert(s[k] == rest[k - 1]);
            }
        }
    }
}

proof fn lemma_id_behind_at<T: ById>(s: Seq<T::V>, key: u128, n: int)
    requires
        0 <= n <= s.len(),
        forall|k: int| 0 <= k < n ==> T::id_of(#[trigger] s[k]) <= key,
        n < s.len() ==> key < T::id_of(s[n]),
    ensures
        id_behind::<T>(s, key) == n,
    decreases n,
{
    if n > 0 {
        assert(T::id_of(s[0]) <= key);
        let rest = s.drop_first();
        assert forall|k: int| 0 <= k < n - 1 implies T::id_of(#[trigger] rest[k]) <= key by {
            assert(rest[k] == s[k + 1]);
        }
        lemma_id_behind_at::<T>(rest, key, n - 1);
    }
}

/// Sorting puts entries in the order of their identifiers.
pub proof fn lemma_id_sort_sorted<T: ById>(s: Seq<T::V>)
    ensures
        id_sort::<T>(s).len() == s.len(),
        forall|i: int, j: int|
            0 <= i < j < s.len() ==> T::id_of(#[trigger] id_sort::<T>(s)[i]) <= T::id_of(
                #[trigger] id_sort::<T>(s)[j],
            ),
    decreases s.len(),
{
    if s.len() > 0 {
        let head = id_sort::<T>(s.drop_last());
        lemma_id_sort_sorted::<T>(s.drop_last());
        let key = T::id_of(s.last());
        lemma_id_behind::<T>(head, key);
        let n = id_behind::<T>(head, key);
        let r = id_sort::<T>(s);
        assert forall|i: int, j: int| 0 <= i < j < r.len() implies T::id_of(#[trigger] r[i])
            <= T::id_of(#[trigger] r[j]) by {
            if i > n {
                assert(r[i] == head[i - 1] && r[j] == head[j - 1]);
            } else if i < n {
                assert(r[i] == head[i]);
                if j > n {
                    assert(r[j] == head[j - 1]);
                }
            } else {
                assert(r[j] == head[j - 1]);
            }
        }
    }
}

/// Sorting keeps the entries.
pub proof fn lemma_id_sort_permutes<T: ById>(s: Seq<T::V>)
    ensures
        id_sort::<T>(s).to_multiset() == s.to_multiset(),
    decreases s.len(),
{
    broadcast use vstd::seq_lib::group_to_multiset_ensures;

    if s.len() > 0 {
        let head = id_sort::<T>(s.drop_last());
        lemma_id_sort_permutes::<T>(s.drop_last());
        lemma_id_behind::<T>(head, T::id_of(s.last()));
        assert(s =~= s.drop_last().push(s.last()));
    }
}

/// Sorts entries by their identifiers.
pub fn sort_id<T: ById>(v: Vec<T>) -> (r: Vec<T>)
    ensures
        views(r@) == id_sort::<T>(views(v@)),
{
    let ghost s = views(v@);
    let mut out: Vec<T> = Vec::new();
    assert(views(out@) =~= s.take(0));
    for i in 0..v.len()
        invariant
            s == views(v@),
            views(out@) == id_sort::<T>(s.take(i as int)),
    {
        let key: u128 = v[i].id();
        let ghost so_far = views(out@);
        let mut n: usize = 0;
        while n < out.len() && out[n].id() <= key
            invariant
                n <= out.len(),
                so_far == views(out@),
                forall|k: int| 0 <= k < n ==> T::id_of(#[trigger] so_far[k]) <= key,
            decreases out.len() - n,
        {
            assert(so_far[n as int] == out@[n as int]@);
            n = n + 1;
        }
        proof {
            if n < out.len() {
                assert(so_far[n as int] == out@[n as int]@);
            }
            lemma_id_behind_at::<T>(so_far, key, n as int);
            assert(s.take(i + 1).drop_last() =~= s.take(i as int));
            assert(s.take(i + 1).last() == v@[i as int]@);
        }
        let x = v[i].copy();
        let ghost xv = x@;
        out.insert(n, x);
        assert(views(out@) =~= so_far.insert(n as int, xv));
    }
    assert(s.take(s.len() as int) =~= s);
    out
}

// ---------------------------------------------------------------------------
// Reading a table by identifier back
// ---------------------------------------------------------------------------

/// The table that entries make when they are put one after the other.
pub open spec fn id_fill<T: ById>(s: Seq<T::V>) -> Seq<T::V>
    decreases s.len(),
{
    if s.len() == 0 {
        s
    } else {
        id_put::<T>(id_fill::<T>(s.drop_last()), s.last())
    }
}

/// A table that is put entry by entry is in order, and entries that are in order stay as they
/// are.
pub proof fn lemma_id_fill<T: ById>(s: Seq<T::V>)
    ensures
        id_sorted::<T>(id_fill::<T>(s)),
        id_sorted::<T>(s) ==> id_fill::<T>(s) == s,
    decreases s.len(),
{
    if s.len() > 0 {
        let head = s.drop_last();
        let x = s.last();
        lemma_id_fill::<T>(head);
        lemma_id_put_sorted::<T>(id_fill::<T>(head), x);
        if id_sorted::<T>(s) {
            assert forall|i: int, j: int| 0 <= i < j < head.len() implies T::id_of(#[trigger] head[i]) < T::id_of(#[trigger] head[j]) by {
                assert(head[i] == s[i] && head[j] == s[j]);
            }
            assert forall|k: int| 0 <= k < head.len() implies T::id_of(#[trigger] head[k]) < T::id_of(x) by {
                assert(head[k] == s[k]);
                assert(s[s.len() - 1] == x);
            }
            lemma_id_slot_at::<T>(head, T::id_of(x), head.len() as int);
            assert(head.insert(head.len() as int, x) =~= s);
        }
    }
}

/// The records of a list of records with keys.
pub open spec fn records_of_id<T: ById>(entries: Seq<(u128, T)>) -> Seq<T::V> {
    entries.map_values(|e: (u128, T)| e.1@)
}

/// Whether every record stands under its own identifier.
pub open spec fn ids_agree<T: ById>(entries: Seq<(u128, T)>) -> bool {
    forall|i: int| 0 <= i < entries.len() ==> (#[trigger] entries[i]).0 == T::id_of(entries[i].1@)
}

/// The table of records that were read back with their keys, and whether every record stood
/// under its own identifier.
pub fn restore_ids<T: ById>(entries: &Vec<(u128, T)>) -> (r: (Vec<T>, bool))
    ensures
        views(r.0@) == id_fill::<T>(records_of_id::<T>(entries@)),
        id_sorted::<T>(views(r.0@)),
        r.1 == ids_agree::<T>(entries@),
{
    let ghost s = records_of_id::<T>(entries@);
    let mut table: Vec<T> = Vec::new();
    let mut agree = true;
    assert(views(table@) =~= id_fill::<T>(s.take(0)));
    for i in 0..entries.len()
        invariant
            s == records_of_id::<T>(entries@),
            views(table@) == id_fill::<T>(s.take(i as int)),
            agree == ids_agree::<T>(entries@.take(i as int)),
    {
        proof {
            assert(s.take(i + 1).drop_last() =~= s.take(i as int));
            assert(s.take(i + 1).last() == entries@[i as int].1@);
            let all = entries@.take(i + 1);
            let some = entries@.take(i as int);
            assert(all =~= some.push(entries@[i as int]));
            assert(all[i as int] == entries@[i as int]);
            assert forall|k: int| 0 <= k < i implies #[trigger] some[k] == all[k] by {}
            if ids_agree::<T>(all) {
                assert forall|k: int| 0 <= k < i implies (#[trigger] some[k]).0 == T::id_of(some[k].1@) by {
                    assert(some[k] == all[k]);
                }
            }
            if ids_agree::<T>(some) && all[i as int].0 == T::id_of(all[i as int].1@) {
                assert forall|k: int| 0 <= k < all.len() implies (#[trigger] all[k]).0 == T::id_of(all[k].1@) by {
                    if k < i {
                        assert(some[k] == all[k]);
                    }
                }
            }
        }
        agree = agree && entries[i].0 == entries[i].1.id();
        put_id(&mut table, entries[i].1.copy());
    }
    proof {
        assert(s.take(s.len() as int) =~= s);
        assert(entries@.take(entries@.len() as int) =~= entries@);
        lemma_id_fill::<T>(s);
    }
    (table, agree)
}

// ---------------------------------------------------------------------------
// Tables by name
// ---------------------------------------------------------------------------

/// An entry that is found by a name.
pub trait ByName: Model {
    spec fn name_of(v: Self::V) -> Seq<char>;

    /// The name of the entry.
    fn name(&self) -> (r: &str)
        ensures
            r@ == Self::name_of(self@),
    ;
}

/// The place of a name: behind all leading entries with a smaller one.
pub open spec fn name_slot<T: ByName>(s: Seq<T::V>, key: Seq<char>) -> int
    decreases s.len(),
{
    if s.len() == 0 || !before(T::name_of(s[0]), key) {
        0
    } else {
        1 + name_slot::<T>(s.drop_first(), key)
    }
}

/// The entry of a name.
pub open spec fn name_get<T: ByName>(s: Seq<T::V>, key: Seq<char>) -> Option<T::V> {
    let i = name_slot::<T>(s, key);
    if i < s.len() && T::name_of(s[i]) == key {
        Some(s[i])
    } else {
        None
    }
}

/// The table with an entry put in the place of its name.
pub open spec fn name_put<T: ByName>(s: Seq<T::V>, v: T::V) -> Seq<T::V> {
    let i = name_slot::<T>(s, T::name_of(v));
    if i < s.len() && T::name_of(s[i]) == T::name_of(v) {
        s.update(i, v)
    } else {
        s.insert(i, v)
    }
}

/// The table without the entry of a name.
pub open spec fn name_cut<T: ByName>(s: Seq<T::V>, key: Seq<char>) -> Seq<T::V> {
    let i = name_slot::<T>(s, key);
    if i < s.len() && T::name_of(s[i]) == key {
        s.remove(i)
    } else {
        s
    }
}

/// Whether a table is in strictly ascending order of its names.
pub open spec fn name_sorted<T: ByName>(s: Seq<T::V>) -> bool {
    forall|i: int, j: int|
        0 <= i < j < s.len() ==> before(T::name_of(#[trigger] s[i]), T::name_of(#[trigger] s[j]))
}

pub proof fn lemma_name_slot<T: ByName>(s: Seq<T::V>, key: Seq<char>)
    ensures
        0 <= name_slot::<T>(s, key) <= s.len(),
        forall|k: int| 0 <= k < name_slot::<T>(s, key) ==> before(T::name_of(#[trigger] s[k]), key),
        name_slot::<T>(s, key) < s.len() ==> !before(T::name_of(s[name_slot::<T>(s, key)]), key),
    decreases s.len(),
{
    if s.len() > 0 && before(T::name_of(s[0]), key) {
        let rest = s.drop_first();
        lemma_name_slot::<T>(rest, key);
        let n = name_slot::<T>(s, key);
        assert forall|k: int| 0 <= k < n implies before(T::name_of(#[trigger] s[k]), key) by {
            if k > 0 {
                assert(s[k] == rest[k - 1]);
            }
        }
        if n < s.len() {
            assert(s[n] == rest[n - 1]);
        }
    }
}

proof fn lemma_name_slot_at<T: ByName>(s: Seq<T::V>, key: Seq<char>, n: int)
    requires
        0 <= n <= s.len(),
        forall|k: int| 0 <= k < n ==> before(T::name_of(#[trigger] s[k]), key),
        n < s.len() ==> !before(T::name_of(s[n]), key),
    ensures
        name_slot::<T>(s, key) == n,
    decreases n,
{
    if n > 0 {
        let rest = s.drop_first();
        assert forall|k: int| 0 <= k < n - 1 implies before(T::name_of(#[trigger] rest[k]), key) by {
            assert(rest[k] == s[k + 1]);
        }
        assert(before(T::name_of(s[0]), key));
        lemma_name_slot_at::<T>(rest, key, n - 1);
    }
}

/// Putting an entry keeps the order.
pub proof fn lemma_name_put_sorted<T: ByName>(s: Seq<T::V>, v: T::V)
    requires
        name_sorted::<T>(s),
    ensures
        name_sorted::<T>(name_put::<T>(s, v)),
{
    let key = T::name_of(v);
    lemma_name_slot::<T>(s, key);
    let n = name_slot::<T>(s, key);
    let r = name_put::<T>(s, v);
    assert forall|i: int, j: int| 0 <= i < j < r.len() implies before(
        T::name_of(#[trigger] r[i]),
        T::name_of(#[trigger] r[j]),
    ) by {
        if n < s.len() && T::name_of(s[n]) == key {
        } else {
            let si = if i < n {
                i
            } else {
                i - 1
            };
            let sj = if j < n {
                j
            } else {
                j - 1
            };
            if i == n {
                assert(r[j] == s[sj]);
                lemma_before_total(T::name_of(s[n]), key);
                if sj > n {
                    assert(before(T::name_of(s[n]), T::name_of(s[sj])));
                    lemma_before_transitive(key, T::name_of(s[n]), T::name_of(s[sj]));
                }
            } else if j == n {
                assert(r[i] == s[si]);
            } else {
                assert(r[i] == s[si] && r[j] == s[sj]);
            }
        }
    }
}

/// Removing an entry keeps the order.
pub proof fn lemma_name_cut_sorted<T: ByName>(s: Seq<T::V>, key: Seq<char>)
    requires
        name_sorted::<T>(s),
    ensures
        name_sorted::<T>(name_cut::<T>(s, key)),
        name_get::<T>(name_cut::<T>(s, key), key) is None,
{
    lemma_name_slot::<T>(s, key);
    let n = name_slot::<T>(s, key);
    let r = name_cut::<T>(s, key);
    assert forall|i: int, j: int| 0 <= i < j < r.len() implies before(
        T::name_of(#[trigger] r[i]),
        T::name_of(#[trigger] r[j]),
    ) by {
        if n < s.len() && T::name_of(s[n]) == key {
            let si = if i < n {
                i
            } else {
                i + 1
            };
            let sj = if j < n {
                j
            } else {
                j + 1
            };
            assert(r[i] == s[si] && r[j] == s[sj]);
        }
    }
    lemma_name_slot::<T>(r, key);
    lemma_before_irreflexive(key);
    let m = name_slot::<T>(r, key);
    if m < r.len() && T::name_of(r[m]) == key {
        if n < s.len() && T::name_of(s[n]) == key {
            let sm = if m < n {
                m
            } else {
                m + 1
            };
            assert(r[m] == s[sm]);
            if sm < n {
                assert(before(T::name_of(s[sm]), T::name_of(s[n])));
            } else {
                assert(before(T::name_of(s[n]), T::name_of(s[sm])));
            }
        }
    }
}

fn find_name_slot<T: ByName>(v: &Vec<T>, key: &str) -> (r: usize)
    ensures
        r == name_slot::<T>(views(v@), key@),
        r <= v.len(),
{
    let ghost s = views(v@);
    let mut i: usize = 0;
    while i < v.len()
        invariant
            s == views(v@),
            i <= v.len(),
            forall|k: int| 0 <= k < i ==> before(T::name_of(#[trigger] s[k]), key@),
        decreases v.len() - i,
    {
        assert(s[i as int] == v@[i as int]@);
        if !text_before(v[i].name(), key) {
            proof {
                lemma_name_slot_at::<T>(s, key@, i as int);
            }
            return i;
        }
        i = i + 1;
    }
    proof {
        lemma_name_slot_at::<T>(s, key@, i as int);
    }
    i
}

/// The index of the entry of a name.
pub fn find_name<T: ByName>(v: &Vec<T>, key: &str) -> (r: Option<usize>)
    ensures
        match r {
            Some(i) => i < v.len() && i == name_slot::<T>(views(v@), key@) && name_get::<T>(
                views(v@),
                key@,
            ) == Some(v@[i as int]@),
            None => name_get::<T>(views(v@), key@) is None,
        },
{
    let i: usize = find_name_slot(v, key);
    if i < v.len() {
        assert(views(v@)[i as int] == v@[i as int]@);
        if same(v[i].name(), key) {
            return Some(i);
        }
    }
    None
}

/// Puts an entry in the place of its name.
pub fn put_name<T: ByName>(v: &mut Vec<T>, x: T)
    ensures
        views(final(v)@) == name_put::<T>(views(old(v)@), x@),
{
    let ghost s = views(v@);
    let i: usize = find_name_slot(v, x.name());
    let ghost xv = x@;
    if i < v.len() {
        assert(s[i as int] == v@[i as int]@);
        if same(v[i].name(), x.name()) {
            v.set(i, x);
            assert(views(v@) =~= s.update(i as int, xv));
            return ;
        }
    }
    v.insert(i, x);
    assert(views(v@) =~= s.insert(i as int, xv));
}

/// Removes the entry of a name; whether there was one.
pub fn cut_name<T: ByName>(v: &mut Vec<T>, key: &str) -> (r: bool)
    ensures
        views(final(v)@) == name_cut::<T>(views(old(v)@), key@),
        r == (name_get::<T>(views(old(v)@), key@) is Some),
{
    let ghost s = views(v@);
    let i: usize = find_name_slot(v, key);
    if i < v.len() {
        assert(s[i as int] == v@[i as int]@);
        if same(v[i].name(), key) {
            let _ = v.remove(i);
            assert(views(v@) =~= s.remove(i as int));
            return true;
        }
    }
    false
}

// ---------------------------------------------------------------------------
// Reading a table by name back
// ---------------------------------------------------------------------------

/// The table that entries make when they are put one after the other.
pub open spec fn name_fill<T: ByName>(s: Seq<T::V>) -> Seq<T::V>
    decreases s.len(),
{
    if s.len() == 0 {
        s
    } else {
        name_put::<T>(name_fill::<T>(s.drop_last()), s.last())
    }
}

/// A table that is put entry by entry is in order, and entries that are in order stay as they
/// are.
pub proof fn lemma_name_fill<T: ByName>(s: Seq<T::V>)
    ensures
        name_sorted::<T>(name_fill::<T>(s)),
        name_sorted::<T>(s) ==> name_fill::<T>(s) == s,
    decreases s.len(),
{
    if s.len() > 0 {
        let head = s.drop_last();
        let x = s.last();
        lemma_name_fill::<T>(head);
        lemma_name_put_sorted::<T>(name_fill::<T>(head), x);
        if name_sorted::<T>(s) {
            assert forall|i: int, j: int| 0 <= i < j < head.len() implies before(T::name_of(#[trigger] head[i]), T::name_of(#[trigger] head[j])) by {
                assert(head[i] == s[i] && head[j] == s[j]);
            }
            assert forall|k: int| 0 <= k < head.len() implies before(T::name_of(#[trigger] head[k]), T::name_of(x)) by {
                assert(head[k] == s[k]);
                assert(s[s.len() - 1] == x);
            }
            lemma_name_slot_at::<T>(head, T::name_of(x), head.len() as int);
            assert(head.insert(head.len() as int, x) =~= s);
        }
    }
}

/// The records of a list of records with keys.
pub open spec fn records_of_name<T: ByName>(entries: Seq<(String, T)>) -> Seq<T::V> {
    entries.map_values(|e: (String, T)| e.1@)
}

/// Whether every record stands under its own name.
pub open spec fn names_agree<T: ByName>(entries: Seq<(String, T)>) -> bool {
    forall|i: int| 0 <= i < entries.len() ==> (#[trigger] entries[i]).0@ == T::name_of(entries[i].1@)
}

/// The table of records that were read back with their keys, and whether every record stood
/// under its own name.
pub fn restore_names<T: ByName>(entries: &Vec<(String, T)>) -> (r: (Vec<T>, bool))
    ensures
        views(r.0@) == name_fill::<T>(records_of_name::<T>(entries@)),
        name_sorted::<T>(views(r.0@)),
        r.1 == names_agree::<T>(entries@),
{
    let ghost s = records_of_name::<T>(entries@);
    let mut table: Vec<T> = Vec::new();
    let mut agree = true;
    assert(views(table@) =~= name_fill::<T>(s.take(0)));
    for i in 0..entries.len()
        invariant
            s == records_of_name::<T>(entries@),
            views(table@) == name_fill::<T>(s.take(i as int)),
            agree == names_agree::<T>(entries@.take(i as int)),
    {
        proof {
            assert(s.take(i + 1).drop_last() =~= s.take(i as int));
            assert(s.take(i + 1).last() == entries@[i as int].1@);
            let all = entries@.take(i + 1);
            let some = entries@.take(i as int);
            assert(all =~= some.push(entries@[i as int]));
            assert(all[i as int] == entries@[i as int]);
            assert forall|k: int| 0 <= k < i implies #[trigger] some[k] == all[k] by {}
            if names_agree::<T>(all) {
                assert forall|k: int| 0 <= k < i implies (#[trigger] some[k]).0@ == T::name_of(some[k].1@) by {
                    assert(some[k] == all[k]);
                }
            }
            if names_agree::<T>(some) && all[i as int].0@ == T::name_of(all[i as int].1@) {
                assert forall|k: int| 0 <= k < all.len() implies (#[trigger] all[k]).0@ == T::name_of(all[k].1@) by {
                    if k < i {
                        assert(some[k] == all[k]);
                    }
                }
            }
        }
        agree = agree && same(entries[i].0.as_str(), entries[i].1.name());
        put_name(&mut table, entries[i].1.copy());
    }
    proof {
        assert(s.take(s.len() as int) =~= s);
        assert(entries@.take(entries@.len() as int) =~= entries@);
        lemma_name_fill::<T>(s);
    }
    (table, agree)
}

impl ByName for String {
    open spec fn name_of(v: Seq<char>) -> Seq<char> {
        v
    }

    fn name(&self) -> (r: &str) {
        self.as_str()
    }
}

} // verus!

//! The order of the intents of a plan: ascending by their canonical encoding.
use super::encode::{json_intent, json_intent_of};
use super::types::{NetworkPlanIntent, NetworkPlanIntentView};
use crate::model::{views, Model};
use crate::order::{
    before, lemma_before_irreflexive, lemma_before_total, lemma_before_transitive, text_before,
};
use vstd::prelude::*;

verus! {

/// The number of leading intents that an intent is put behind.
pub open spec fn intent_slot(s: Seq<NetworkPlanIntentView>, x: NetworkPlanIntentView) -> int
    decreases s.len(),
{
    if s.len() == 0 || before(json_intent(x), json_intent(s[0])) {
        0
    } else {
        1 + intent_slot(s.drop_first(), x)
    }
}

/// The intents in their order; those with equal encodings stay as they were.
pub open spec fn sort_intents(s: Seq<NetworkPlanIntentView>) -> Seq<NetworkPlanIntentView>
    decreases s.len(),
{
    if s.len() == 0 {
        s
    } else {
        let head = sort_intents(s.drop_last());
        head.insert(intent_slot(head, s.last()), s.last())
    }
}

/// Whether intents are in their order.
pub open spec fn intents_sorted(s: Seq<NetworkPlanIntentView>) -> bool {
    forall|i: int, j: int|
        0 <= i < j < s.len() ==> !before(json_intent(#[trigger] s[j]), json_intent(#[trigger] s[i]))
}

proof fn lemma_intent_slot(s: Seq<NetworkPlanIntentView>, x: NetworkPlanIntentView)
    ensures
        0 <= intent_slot(s, x) <= s.len(),
        forall|k: int|
            0 <= k < intent_slot(s, x) ==> !before(json_intent(x), json_intent(#[trigger] s[k])),
        intent_slot(s, x) < s.len() ==> before(json_intent(x), json_intent(s[intent_slot(s, x)])),
    decreases s.len(),
{
    if s.len() > 0 && !before(json_intent(x), json_intent(s[0])) {
        let rest = s.drop_first();
        lemma_intent_slot(rest, x);
        let n = intent_slot(s, x);
        assert forall|k: int| 0 <= k < n implies !before(
            json_intent(x),
            json_intent(#[trigger] s[k]),
        ) by {
            if k > 0 {
                assert(s[k] == rest[k - 1]);
            }
        }
        if n < s.len() {
            assert(s[n] == rest[n - 1]);
        }
    }
}

proof fn lemma_intent_slot_at(s: Seq<NetworkPlanIntentView>, x: NetworkPlanIntentView, n: int)
    requires
        0 <= n <= s.len(),
        forall|k: int| 0 <= k < n ==> !before(json_intent(x), json_intent(#[trigger] s[k])),
        n < s.len() ==> before(json_intent(x), json_intent(s[n])),
    ensures
        intent_slot(s, x) == n,
    decreases n,
{
    if n > 0 {
        let rest = s.drop_first();
        assert forall|k: int| 0 <= k < n - 1 implies !before(
            json_intent(x),
            json_intent(#[trigger] rest[k]),
        ) by {
            assert(rest[k] == s[k + 1]);
        }
        assert(!before(json_intent(x), json_intent(s[0])));
        lemma_intent_slot_at(rest, x, n - 1);
    }
}

proof fn lemma_insert_sorted(s: Seq<NetworkPlanIntentView>, x: NetworkPlanIntentView)
    requires
        intents_sorted(s),
    ensures
        intents_sorted(s.insert(intent_slot(s, x), x)),
{
    lemma_intent_slot(s, x);
    let n = intent_slot(s, x);
    let r = s.insert(n, x);
    let kx = json_intent(x);
    assert forall|i: int, j: int| 0 <= i < j < r.len() implies !before(
        json_intent(#[trigger] r[j]),
        json_intent(#[trigger] r[i]),
    ) by {
        let si = if i < n {
            i
        } else {
            i - 1
        };
        let sj = if j < n {
            j
        } else {
            j - 1
        };
        if i == n {
            assert(r[j] == s[sj]);
            let kj = json_intent(s[sj]);
            let kn = json_intent(s[n]);
            lemma_before_total(kx, kn);
            lemma_before_total(kx, kj);
            if sj > n {
                assert(!before(kj, kn));
                lemma_before_total(kn, kj);
                if kj != kn {
                    lemma_before_transitive(kx, kn, kj);
                }
            }
        } else if j == n {
            assert(r[i] == s[si]);
        } else {
            assert(r[i] == s[si] && r[j] == s[sj]);
        }
    }
}

/// Sorting puts the intents in their order.
pub proof fn lemma_sorted(s: Seq<NetworkPlanIntentView>)
    ensures
        intents_sorted(sort_intents(s)),
        sort_intents(s).len() == s.len(),
    decreases s.len(),
{
    if s.len() > 0 {
        lemma_sorted(s.drop_last());
        let head = sort_intents(s.drop_last());
        lemma_intent_slot(head, s.last());
        lemma_insert_sorted(head, s.last());
    }
}

/// Sorting neither adds nor drops an intent.
pub proof fn lemma_sort_permutes(s: Seq<NetworkPlanIntentView>)
    ensures
        sort_intents(s).to_multiset() == s.to_multiset(),
    decreases s.len(),
{
    if s.len() > 0 {
        lemma_sort_permutes(s.drop_last());
        let head = sort_intents(s.drop_last());
        lemma_sorted(s.drop_last());
        lemma_intent_slot(head, s.last());
        let n = intent_slot(head, s.last());
        broadcast use vstd::seq_lib::group_to_multiset_ensures;

        let r = head.insert(n, s.last());
        assert(r =~= head.take(n) + (seq![s.last()] + head.skip(n)));
        assert(head =~= head.take(n) + head.skip(n));
        vstd::seq_lib::lemma_multiset_commutative(head.take(n), seq![s.last()] + head.skip(n));
        vstd::seq_lib::lemma_multiset_commutative(seq![s.last()], head.skip(n));
        vstd::seq_lib::lemma_multiset_commutative(head.take(n), head.skip(n));
        vstd::seq_lib::lemma_multiset_commutative(s.drop_last(), seq![s.last()]);
        assert(s =~= s.drop_last() + seq![s.last()]);
        assert(r.to_multiset() =~= s.to_multiset());
    }
}

/// Intents that are in their order stay as they are.
pub proof fn lemma_sort_stable(s: Seq<NetworkPlanIntentView>)
    requires
        intents_sorted(s),
    ensures
        sort_intents(s) == s,
    decreases s.len(),
{
    if s.len() > 0 {
        let head = s.drop_last();
        assert forall|i: int, j: int| 0 <= i < j < head.len() implies !before(
            json_intent(#[trigger] head[j]),
            json_intent(#[trigger] head[i]),
        ) by {
            assert(head[i] == s[i] && head[j] == s[j]);
        }
        lemma_sort_stable(head);
        assert forall|k: int| 0 <= k < head.len() implies !before(
            json_intent(s.last()),
            json_intent(#[trigger] head[k]),
        ) by {
            assert(head[k] == s[k] && s.last() == s[s.len() - 1]);
        }
        lemma_intent_slot_at(head, s.last(), head.len() as int);
        assert(head.insert(head.len() as int, s.last()) =~= s);
    }
}

/// Intents that are in their order have the same encodings wherever they are the same intents.
pub proof fn lemma_sorted_encodings(
    a: Seq<NetworkPlanIntentView>,
    b: Seq<NetworkPlanIntentView>,
)
    requires
        intents_sorted(a),
        intents_sorted(b),
        a.to_multiset() == b.to_multiset(),
    ensures
        a.map_values(|v: NetworkPlanIntentView| json_intent(v)) == b.map_values(
            |v: NetworkPlanIntentView| json_intent(v),
        ),
    decreases a.len(),
{
    broadcast use vstd::seq_lib::group_to_multiset_ensures;

    let f = |v: NetworkPlanIntentView| json_intent(v);
    a.to_multiset_ensures();
    b.to_multiset_ensures();
    assert(a.len() == b.len());
    if a.len() > 0 {
        let n = a.len() - 1;
        let x = a[n];
        let y = b[n];
        assert(a.contains(x) && b.contains(y));
        assert(a.to_multiset().count(x) > 0 && b.to_multiset().count(y) > 0);
        assert(b.contains(x) && a.contains(y));
        let j = choose|j: int| 0 <= j < b.len() && b[j] == x;
        let k = choose|k: int| 0 <= k < a.len() && a[k] == y;
        lemma_before_total(json_intent(x), json_intent(y));
        lemma_before_irreflexive(json_intent(x));
        assert(json_intent(x) == json_intent(y)) by {
            if k < n {
                assert(!before(json_intent(a[n]), json_intent(a[k])));
            }
            if j < n {
                assert(!before(json_intent(b[n]), json_intent(b[j])));
            }
        }
        let a1 = a.remove(n);
        let b1 = b.remove(j);
        assert(a1.to_multiset() == b1.to_multiset());
        assert forall|p: int, q: int| 0 <= p < q < a1.len() implies !before(
            json_intent(#[trigger] a1[q]),
            json_intent(#[trigger] a1[p]),
        ) by {
            assert(a1[p] == a[p] && a1[q] == a[q]);
        }
        assert forall|p: int, q: int| 0 <= p < q < b1.len() implies !before(
            json_intent(#[trigger] b1[q]),
            json_intent(#[trigger] b1[p]),
        ) by {
            let bp = if p < j {
                p
            } else {
                p + 1
            };
            let bq = if q < j {
                q
            } else {
                q + 1
            };
            assert(b1[p] == b[bp] && b1[q] == b[bq]);
        }
        lemma_sorted_encodings(a1, b1);
        assert forall|i: int| 0 <= i < a.len() implies a.map_values(f)[i] == b.map_values(f)[i] by {
            if i < n {
                assert(a1.map_values(f)[i] == b1.map_values(f)[i]);
                assert(a1[i] == a[i]);
                if i < j {
                    assert(b1[i] == b[i]);
                } else {
                    assert(b1[i] == b[i + 1]);
                    lemma_between(b, j, i);
                    lemma_between(b, j, i + 1);
                }
            }
        }
        assert(a.map_values(f) =~= b.map_values(f));
    } else {
        assert(a.map_values(f) =~= b.map_values(f));
    }
}

proof fn lemma_between(b: Seq<NetworkPlanIntentView>, j: int, i: int)
    requires
        intents_sorted(b),
        0 <= j <= i < b.len(),
        json_intent(b[j]) == json_intent(b[b.len() - 1]),
    ensures
        json_intent(b[i]) == json_intent(b[j]),
{
    lemma_before_total(json_intent(b[i]), json_intent(b[j]));
    if j < i {
        assert(!before(json_intent(b[i]), json_intent(b[j])));
    }
    if i < b.len() - 1 {
        assert(!before(json_intent(b[b.len() - 1]), json_intent(b[i])));
    }
}

/// Computes [`sort_intents`].
pub fn sorted_intents(v: &Vec<NetworkPlanIntent>) -> (r: Vec<NetworkPlanIntent>)
    ensures
        views(r@) == sort_intents(views(v@)),
{
    let mut out: Vec<NetworkPlanIntent> = Vec::new();
    let mut keys: Vec<String> = Vec::new();
    let ghost all = views(v@);
    assert(all.take(0) =~= Seq::<NetworkPlanIntentView>::empty());
    assert(views(out@) =~= Seq::<NetworkPlanIntentView>::empty());
    for i in 0..v.len()
        invariant
            all == views(v@),
            views(out@) == sort_intents(all.take(i as int)),
            keys@.len() == out@.len(),
            forall|k: int| 0 <= k < keys@.len() ==> (#[trigger] keys@[k])@ == json_intent(out@[k]@),
    {
        let x = v[i].copy();
        let key = json_intent_of(&x);
        let ghost xv = x@;
        let ghost s = views(out@);
        proof {
            assert(all[i as int] == v@[i as int]@);
            assert(all.take(i + 1).drop_last() =~= all.take(i as int));
            assert(all.take(i + 1).last() == xv);
        }
        let mut n: usize = 0;
        while n < out.len() && !text_before(key.as_str(), keys[n].as_str())
            invariant
                n <= out.len(),
                s == views(out@),
                key@ == json_intent(xv),
                keys@.len() == out@.len(),
                forall|k: int|
                    0 <= k < keys@.len() ==> (#[trigger] keys@[k])@ == json_intent(out@[k]@),
                forall|k: int|
                    0 <= k < n ==> !before(json_intent(xv), json_intent(#[trigger] s[k])),
            decreases out.len() - n,
        {
            assert(keys@[n as int]@ == json_intent(out@[n as int]@));
            assert(s[n as int] == out@[n as int]@);
            n = n + 1;
        }
        proof {
            if n < out@.len() {
                assert(keys@[n as int]@ == json_intent(out@[n as int]@));
                assert(s[n as int] == out@[n as int]@);
            }
            lemma_intent_slot_at(s, xv, n as int);
        }
        let ghost before_out = out@;
        let ghost before_keys = keys@;
        out.insert(n, x);
        keys.insert(n, key);
        assert(views(out@) =~= s.insert(n as int, xv));
        assert forall|k: int| 0 <= k < keys@.len() implies (#[trigger] keys@[k])@ == json_intent(
            out@[k]@,
        ) by {
            if k < n {
                assert(before_keys[k]@ == json_intent(before_out[k]@));
            } else if k > n {
                assert(before_keys[k - 1]@ == json_intent(before_out[k - 1]@));
            }
        }
    }
    assert(all.take(all.len() as int) =~= all);
    out
}

} // verus!

//! Association tables: vectors of `(GameObjectId, V)` pairs with unique keys,
//! kept in insertion order. Ids are allocated by a monotone counter, so a
//! linear table gives the same keyed access the game needs, with a fully
//! specified view.

use vstd::prelude::*;
use crate::game::GameObjectId;

verus! {

/// Entry `i` of `s` carries key `k`.
pub open spec fn tbl_key_at<V>(s: Seq<(GameObjectId, V)>, k: GameObjectId, i: int) -> bool {
    0 <= i < s.len() && s[i].0 == k
}

/// Some entry of `s` carries key `k`.
pub open spec fn tbl_has<V>(s: Seq<(GameObjectId, V)>, k: GameObjectId) -> bool {
    exists|i: int| tbl_key_at(s, k, i)
}

/// The index of the entry carrying key `k` (meaningful when keys are unique).
pub open spec fn tbl_idx<V>(s: Seq<(GameObjectId, V)>, k: GameObjectId) -> int {
    choose|i: int| tbl_key_at(s, k, i)
}

/// The value stored under key `k`.
pub open spec fn tbl_get<V>(s: Seq<(GameObjectId, V)>, k: GameObjectId) -> V {
    s[tbl_idx(s, k)].1
}

/// No two entries of `s` carry the same key.
pub open spec fn tbl_unique<V>(s: Seq<(GameObjectId, V)>) -> bool {
    forall|i: int, j: int|
        #![trigger s[i].0, s[j].0]
        0 <= i < j < s.len() ==> s[i].0 != s[j].0
}

/// Keeps the entries whose key is not listed in `dead`.
pub open spec fn not_listed_pred<V>(dead: Seq<GameObjectId>) -> spec_fn((GameObjectId, V)) -> bool {
    |e: (GameObjectId, V)| !dead.contains(e.0)
}

/// With unique keys, an entry carrying `k` is the one `tbl_idx` picks.
pub proof fn lemma_tbl_idx<V>(s: Seq<(GameObjectId, V)>, k: GameObjectId, i: int)
    requires
        tbl_unique(s),
        tbl_key_at(s, k, i),
    ensures
        tbl_has(s, k),
        tbl_idx(s, k) == i,
        tbl_get(s, k) == s[i].1,
{
    assert(tbl_has(s, k));
    let j = tbl_idx(s, k);
    assert(tbl_key_at(s, k, j));
    if i < j {
        assert(s[i].0 != s[j].0);
    } else if j < i {
        assert(s[j].0 != s[i].0);
    }
}

/// Tables of equal length with pointwise equal keys present the same keys.
pub proof fn lemma_tbl_same_keys<V, W>(pre: Seq<(GameObjectId, V)>, post: Seq<(GameObjectId, W)>)
    requires
        post.len() == pre.len(),
        forall|j: int| 0 <= j < pre.len() ==> (#[trigger] post[j]).0 == (#[trigger] pre[j]).0,
    ensures
        tbl_unique(pre) ==> tbl_unique(post),
        forall|k: GameObjectId| tbl_has(pre, k) ==> tbl_has(post, k),
{
    assert forall|k: GameObjectId| tbl_has(pre, k) implies tbl_has(post, k) by {
        let i = choose|i: int| tbl_key_at(pre, k, i);
        assert(tbl_key_at(post, k, i));
    }
    if tbl_unique(pre) {
        assert forall|i: int, j: int|
            #![trigger post[i].0, post[j].0]
            0 <= i < j < post.len() implies post[i].0 != post[j].0 by {
            assert(pre[i].0 != pre[j].0);
        }
    }
}

/// Appending an entry keeps every present key present, adds the new one, and
/// keeps keys unique when the new key is fresh.
pub proof fn lemma_tbl_push_keys<V>(s: Seq<(GameObjectId, V)>, e: (GameObjectId, V))
    ensures
        forall|k: GameObjectId| tbl_has(s, k) ==> tbl_has(s.push(e), k),
        tbl_has(s.push(e), e.0),
        (tbl_unique(s) && (forall|i: int|
            0 <= i < s.len() ==> (#[trigger] s[i]).0 != e.0)) ==> tbl_unique(s.push(e)),
{
    assert forall|k: GameObjectId| tbl_has(s, k) implies tbl_has(s.push(e), k) by {
        let i = choose|i: int| tbl_key_at(s, k, i);
        assert(tbl_key_at(s.push(e), k, i));
    }
    assert(tbl_key_at(s.push(e), e.0, s.len() as int));
}

/// `filter` over a sequence extended by one element.
pub proof fn lemma_filter_push<A>(s: Seq<A>, pred: spec_fn(A) -> bool, e: A)
    ensures
        s.push(e).filter(pred) == if pred(e) {
            s.filter(pred).push(e)
        } else {
            s.filter(pred)
        },
    decreases s.len(),
{
    reveal(Seq::filter);
    assert(s.push(e).drop_last() =~= s);
    assert(s.push(e).last() == e);
}

/// `map_values` over a sequence extended by one element.
pub proof fn lemma_map_values_push<A, B>(s: Seq<A>, f: spec_fn(A) -> B, e: A)
    ensures
        s.push(e).map_values(f) == s.map_values(f).push(f(e)),
{
    assert(s.push(e).map_values(f) =~= s.map_values(f).push(f(e)));
}

/// A filtered table's entries come from the table, its keys are the table's
/// keys, and unique keys stay unique.
pub proof fn lemma_tbl_filter<V>(s: Seq<(GameObjectId, V)>, pred: spec_fn((GameObjectId, V)) -> bool)
    ensures
        forall|i: int|
            0 <= i < s.filter(pred).len() ==> s.contains(#[trigger] s.filter(pred)[i]),
        forall|k: GameObjectId| tbl_has(s.filter(pred), k) ==> tbl_has(s, k),
        tbl_unique(s) ==> tbl_unique(s.filter(pred)),
    decreases s.len(),
{
    reveal(Seq::filter);
    if s.len() == 0 {
    } else {
        let dl = s.drop_last();
        let last = s.last();
        assert(forall|j: int| 0 <= j < dl.len() ==> dl[j] == s[j]);
        lemma_tbl_filter(dl, pred);
        let f = dl.filter(pred);
        assert forall|i: int|
            0 <= i < s.filter(pred).len() implies s.contains(#[trigger] s.filter(pred)[i]) by {
            if pred(last) && i == f.len() {
                assert(s[s.len() - 1] == last);
            } else {
                assert(s.filter(pred)[i] == f[i]);
                assert(dl.contains(f[i]));
                let j = choose|j: int| 0 <= j < dl.len() && dl[j] == f[i];
                assert(s[j] == f[i]);
            }
        }
        assert forall|k: GameObjectId| tbl_has(s.filter(pred), k) implies tbl_has(s, k) by {
            let i = choose|i: int| tbl_key_at(s.filter(pred), k, i);
            if pred(last) && i == f.len() {
                assert(tbl_key_at(s, k, s.len() - 1));
            } else {
                assert(tbl_has(f, k)) by {
                    assert(tbl_key_at(f, k, i));
                }
                assert(tbl_has(dl, k));
                let j = choose|j: int| tbl_key_at(dl, k, j);
                assert(dl[j] == s[j]);
                assert(tbl_key_at(s, k, j));
            }
        }
        if tbl_unique(s) {
            assert(tbl_unique(dl));
            if pred(last) {
                assert forall|i: int| 0 <= i < f.len() implies f[i].0 != last.0 by {
                    assert(dl.contains(f[i]));
                    let j = choose|j: int| 0 <= j < dl.len() && dl[j] == f[i];
                    assert(s[j].0 != s[s.len() - 1].0);
                }
                assert forall|i: int, j: int|
                    #![trigger s.filter(pred)[i].0, s.filter(pred)[j].0]
                    0 <= i < j < s.filter(pred).len() implies s.filter(pred)[i].0 != s.filter(
                    pred,
                )[j].0 by {
                    if j < f.len() {
                        assert(f[i].0 != f[j].0);
                    } else {
                        assert(s.filter(pred)[j] == last);
                        assert(f[i].0 != last.0);
                    }
                }
            }
        }
    }
}

/// Finds the index of the entry carrying key `k`, if there is one.
pub fn tbl_find<V>(v: &Vec<(GameObjectId, V)>, k: GameObjectId) -> (r: Option<usize>)
    ensures
        match r {
            Some(i) => tbl_key_at(v@, k, i as int),
            None => !tbl_has(v@, k),
        },
{
    let n: usize = v.len();
    for i in 0..n
        invariant
            n == v@.len(),
            forall|j: int| 0 <= j < i ==> (#[trigger] v@[j].0) != k,
    {
        if v[i].0 == k {
            return Some(i);
        }
    }
    None
}

/// Whether `k` occurs in the id list `v`.
pub fn id_list_contains(v: &Vec<GameObjectId>, k: GameObjectId) -> (r: bool)
    ensures
        r == v@.contains(k),
{
    let n: usize = v.len();
    for i in 0..n
        invariant
            n == v@.len(),
            forall|j: int| 0 <= j < i ==> (#[trigger] v@[j]) != k,
    {
        if v[i] == k {
            return true;
        }
    }
    false
}

/// Removes every entry whose key occurs in `dead`, keeping the rest in order.
pub fn tbl_purge<V: Copy>(v: &mut Vec<(GameObjectId, V)>, dead: &Vec<GameObjectId>)
    ensures
        final(v)@ == old(v)@.filter(not_listed_pred(dead@)),
{
    let n: usize = v.len();
    let mut out: Vec<(GameObjectId, V)> = Vec::new();
    for i in 0..n
        invariant
            n == v@.len(),
            out@ == v@.take(i as int).filter(not_listed_pred::<V>(dead@)),
    {
        let e = v[i];
        let gone = id_list_contains(dead, e.0);
        proof {
            assert(v@.take(i + 1) =~= v@.take(i as int).push(v@[i as int]));
            lemma_filter_push(v@.take(i as int), not_listed_pred::<V>(dead@), v@[i as int]);
        }
        if !gone {
            out.push(e);
        }
    }
    proof {
        assert(v@.take(n as int) =~= v@);
    }
    *v = out;
}

} // verus!

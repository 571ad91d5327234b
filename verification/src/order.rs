//! Stable descending order.
use vstd::prelude::*;

verus! {

/// `order` with the position `i` put behind every position whose key is not smaller.
pub open spec fn insert_desc(order: Seq<int>, keys: Seq<i64>, i: int) -> Seq<int>
    decreases order.len(),
{
    if order.len() == 0 {
        seq![i]
    } else if keys[order.last()] >= keys[i] {
        order.push(i)
    } else {
        insert_desc(order.drop_last(), keys, i).push(order.last())
    }
}

/// The positions of `keys` from the largest key to the smallest; of equal keys the one that
/// came first stays first.
pub open spec fn desc_order(keys: Seq<i64>) -> Seq<int>
    decreases keys.len(),
{
    if keys.len() == 0 {
        Seq::empty()
    } else {
        insert_desc(desc_order(keys.drop_last()), keys, keys.len() - 1)
    }
}

/// The elements of `s` at the positions `order`.
pub open spec fn pick<T>(s: Seq<T>, order: Seq<int>) -> Seq<T> {
    Seq::new(order.len(), |k: int| s[order[k]])
}

/// `s` from the largest key to the smallest.
pub open spec fn ranked<T>(s: Seq<T>, keys: Seq<i64>) -> Seq<T> {
    pick(s, desc_order(keys))
}

/// Whether `order` lists each of the first `n` positions once, with descending keys and
/// equal keys in their old order.
pub open spec fn is_stable_desc(order: Seq<int>, keys: Seq<i64>, n: int) -> bool {
    &&& order.len() == n
    &&& forall|k: int| 0 <= k < n ==> 0 <= #[trigger] order[k] < n
    &&& forall|j: int, k: int|
        0 <= j < k < n ==> {
            ||| keys[#[trigger] order[j]] > keys[#[trigger] order[k]]
            ||| keys[order[j]] == keys[order[k]] && order[j] < order[k]
        }
}

proof fn lemma_insert_desc(order: Seq<int>, keys: Seq<i64>, i: int, p: int)
    requires
        0 <= p <= order.len(),
        p > 0 ==> keys[order[p - 1]] >= keys[i],
        forall|k: int| p <= k < order.len() ==> keys[#[trigger] order[k]] < keys[i],
    ensures
        insert_desc(order, keys, i) == order.insert(p, i),
    decreases order.len(),
{
    if order.len() == 0 {
        assert(order.insert(p, i) =~= seq![i]);
    } else if keys[order.last()] >= keys[i] {
        assert(p == order.len()) by {
            if p < order.len() {
                assert(keys[order[order.len() - 1]] < keys[i]);
            }
        }
        assert(order.insert(p, i) =~= order.push(i));
    } else {
        assert(p < order.len());
        lemma_insert_desc(order.drop_last(), keys, i, p);
        assert(order.drop_last().insert(p, i).push(order.last()) =~= order.insert(p, i));
    }
}

proof fn lemma_insert_place(order: Seq<int>, keys: Seq<i64>, i: int) -> (p: int)
    requires
        forall|k: int| 0 <= k < order.len() ==> 0 <= #[trigger] order[k] < i,
        forall|j: int, k: int|
            0 <= j < k < order.len() ==> keys[#[trigger] order[j]] >= keys[#[trigger] order[k]],
    ensures
        0 <= p <= order.len(),
        p > 0 ==> keys[order[p - 1]] >= keys[i],
        forall|k: int| p <= k < order.len() ==> keys[#[trigger] order[k]] < keys[i],
        insert_desc(order, keys, i) == order.insert(p, i),
    decreases order.len(),
{
    if order.len() == 0 {
        lemma_insert_desc(order, keys, i, 0);
        0
    } else if keys[order.last()] >= keys[i] {
        lemma_insert_desc(order, keys, i, order.len() as int);
        order.len() as int
    } else {
        let init = order.drop_last();
        assert forall|j: int, k: int| 0 <= j < k < init.len() implies keys[#[trigger] init[j]] >= keys[
        #[trigger] init[k]] by {
            assert(keys[order[j]] >= keys[order[k]]);
        }
        let p = lemma_insert_place(init, keys, i);
        assert forall|k: int| p <= k < order.len() implies keys[#[trigger] order[k]] < keys[i] by {
            if k < init.len() {
                assert(keys[init[k]] < keys[i]);
            }
        }
        lemma_insert_desc(order, keys, i, p);
        p
    }
}

/// The order lists every position once, from the largest key to the smallest, and keeps
/// equal keys in the order in which they came.
pub proof fn law_desc_order_is_stable(keys: Seq<i64>)
    ensures
        is_stable_desc(desc_order(keys), keys, keys.len() as int),
    decreases keys.len(),
{
    if keys.len() > 0 {
        let init = keys.drop_last();
        let n = init.len() as int;
        law_desc_order_is_stable(init);
        let order = desc_order(init);
        assert forall|j: int, k: int| 0 <= j < k < order.len() implies keys[#[trigger] order[j]] >= keys[
        #[trigger] order[k]] by {
            assert(init[order[j]] == keys[order[j]]);
            assert(init[order[k]] == keys[order[k]]);
        }
        let p = lemma_insert_place(order, keys, n);
        let after = order.insert(p, n);
        assert forall|j: int, k: int| 0 <= j < k < n + 1 implies {
            ||| keys[#[trigger] after[j]] > keys[#[trigger] after[k]]
            ||| keys[after[j]] == keys[after[k]] && after[j] < after[k]
        } by {
            let oj = if j < p { j } else { j - 1 };
            let ok = if k < p { k } else { k - 1 };
            if j == p {
                assert(after[k] == order[k - 1]);
            } else if k == p {
                assert(after[j] == order[j]);
                if j < p - 1 {
                    assert(keys[order[j]] >= keys[order[p - 1]]);
                }
            } else {
                assert(after[j] == order[oj]);
                assert(after[k] == order[ok]);
                assert(init[order[oj]] == keys[order[oj]]);
                assert(init[order[ok]] == keys[order[ok]]);
            }
        }
    }
}

/// The last position comes into the order of those before it.
pub proof fn lemma_insert_into_order(keys: Seq<i64>) -> (p: int)
    requires
        keys.len() > 0,
    ensures
        0 <= p <= desc_order(keys.drop_last()).len(),
        desc_order(keys) == desc_order(keys.drop_last()).insert(p, keys.len() - 1),
{
    let init = keys.drop_last();
    law_desc_order_is_stable(init);
    let order = desc_order(init);
    assert forall|j: int, k: int| 0 <= j < k < order.len() implies keys[#[trigger] order[j]] >= keys[
    #[trigger] order[k]] by {
        assert(init[order[j]] == keys[order[j]]);
        assert(init[order[k]] == keys[order[k]]);
    }
    lemma_insert_place(order, keys, keys.len() - 1)
}

/// Every position stands somewhere in the order.
pub proof fn lemma_order_is_onto(keys: Seq<i64>, i: int)
    requires
        0 <= i < keys.len(),
    ensures
        exists|p: int| 0 <= p < desc_order(keys).len() && #[trigger] desc_order(keys)[p] == i,
    decreases keys.len(),
{
    let init = keys.drop_last();
    let n = init.len() as int;
    let order = desc_order(init);
    let p = lemma_insert_into_order(keys);
    let after = desc_order(keys);
    if i == n {
        assert(after[p] == i);
    } else {
        lemma_order_is_onto(init, i);
        let q = choose|q: int| 0 <= q < order.len() && #[trigger] order[q] == i;
        if q < p {
            assert(after[q] == i);
        } else {
            assert(after[q + 1] == i);
        }
    }
}

/// The positions as mathematical integers.
pub open spec fn as_ints(order: Seq<usize>) -> Seq<int> {
    Seq::new(order.len(), |k: int| order[k] as int)
}

/// Orders positions by descending key.
pub fn order_desc(keys: &Vec<i64>) -> (r: Vec<usize>)
    ensures
        as_ints(r@) == desc_order(keys@),
        r@.len() == keys@.len(),
        forall|k: int| 0 <= k < r@.len() ==> #[trigger] r@[k] < keys@.len(),
{
    let mut r: Vec<usize> = Vec::new();
    let mut i: usize = 0;
    assert(as_ints(r@) =~= desc_order(keys@.take(0)));
    while i < keys.len()
        invariant
            i <= keys@.len(),
            r@.len() == i,
            as_ints(r@) == desc_order(keys@.take(i as int)),
            forall|k: int| 0 <= k < r@.len() ==> #[trigger] r@[k] < i,
        decreases keys@.len() - i,
    {
        let mut p: usize = r.len();
        while 0 < p && keys[r[p - 1]] < keys[i]
            invariant
                i < keys@.len(),
                p <= r@.len() == i,
                forall|k: int| 0 <= k < r@.len() ==> #[trigger] r@[k] < i,
                forall|k: int| p <= k < r@.len() ==> keys@[#[trigger] r@[k] as int] < keys@[i as int],
            decreases p,
        {
            p -= 1;
        }
        proof {
            let now = keys@.take(i + 1);
            assert(now.drop_last() =~= keys@.take(i as int));
            let order = as_ints(r@);
            assert forall|k: int| p <= k < order.len() implies now[#[trigger] order[k]] < now[i as int] by {
                assert(order[k] == r@[k] as int);
            }
            lemma_insert_desc(order, now, i as int, p as int);
            assert(as_ints(r@.insert(p as int, i)) =~= order.insert(p as int, i as int));
        }
        r.insert(p, i);
        i += 1;
    }
    assert(keys@.take(i as int) =~= keys@);
    r
}

} // verus!

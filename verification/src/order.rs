//! Ranking by order key: the stable ascending order of a list of keys.

use vstd::prelude::*;

verus! {

/// Position `a` comes before position `b` in the stable ascending order of
/// `keys`: by key, and among equal keys by position.
pub open spec fn ranks_before(keys: Seq<i64>, a: int, b: int) -> bool {
    keys[a] < keys[b] || (keys[a] == keys[b] && a < b)
}

/// `order` lists the first `n` positions of `keys`, each once, in stable
/// ascending order.
pub open spec fn is_stable_order_of_first(order: Seq<usize>, keys: Seq<i64>, n: int) -> bool {
    &&& order.len() == n
    &&& forall|i: int| 0 <= i < order.len() ==> 0 <= #[trigger] order[i] < n
    &&& forall|i: int, j: int| 0 <= i < j < order.len() ==> ranks_before(keys, order[i] as int, order[j] as int)
    &&& forall|k: usize| 0 <= k < n ==> #[trigger] order.contains(k)
}

/// `order` lists the positions of `keys`, each once, in stable ascending
/// order: the order in which a stable sort leaves the items.
pub open spec fn is_stable_order(order: Seq<usize>, keys: Seq<i64>) -> bool {
    is_stable_order_of_first(order, keys, keys.len() as int)
}

/// In a stable order the keys ascend.
pub proof fn lemma_stable_order_ascends(order: Seq<usize>, keys: Seq<i64>, i: int, j: int)
    requires
        is_stable_order(order, keys),
        0 <= i <= j < order.len(),
    ensures
        keys[order[i] as int] <= keys[order[j] as int],
{
    if i < j {
        assert(ranks_before(keys, order[i] as int, order[j] as int));
    }
}

/// The first position of a stable order holds a smallest key.
pub proof fn lemma_stable_order_first_is_minimum(order: Seq<usize>, keys: Seq<i64>, k: usize)
    requires
        is_stable_order(order, keys),
        0 <= k < keys.len(),
    ensures
        keys[order[0] as int] <= keys[k as int],
{
    assert(order.contains(k));
    let j = choose|j: int| 0 <= j < order.len() && order[j] == k;
    lemma_stable_order_ascends(order, keys, 0, j);
}

/// Two stable orders of the same keys agree on their first `i` entries.
proof fn lemma_stable_orders_agree_up_to(a: Seq<usize>, b: Seq<usize>, keys: Seq<i64>, i: int)
    requires
        is_stable_order(a, keys),
        is_stable_order(b, keys),
        0 <= i <= keys.len(),
    ensures
        forall|j: int| 0 <= j < i ==> a[j] == b[j],
    decreases i,
{
    if i > 0 {
        lemma_stable_orders_agree_up_to(a, b, keys, i - 1);
        let k = i - 1;
        let x = a[k];
        let y = b[k];
        assert(b.contains(x));
        let q = choose|q: int| 0 <= q < b.len() && b[q] == x;
        assert(a.contains(y));
        let p = choose|p: int| 0 <= p < a.len() && a[p] == y;
        if q < k {
            assert(ranks_before(keys, a[q] as int, a[k] as int));
        }
        if p < k {
            assert(ranks_before(keys, b[p] as int, b[k] as int));
        }
        if q > k {
            assert(ranks_before(keys, b[k] as int, b[q] as int));
            if p > k {
                assert(ranks_before(keys, a[k] as int, a[p] as int));
            }
        }
    }
}

/// The stable order of a list of keys is unique.
pub proof fn lemma_stable_order_unique(a: Seq<usize>, b: Seq<usize>, keys: Seq<i64>)
    requires
        is_stable_order(a, keys),
        is_stable_order(b, keys),
    ensures
        a == b,
{
    lemma_stable_orders_agree_up_to(a, b, keys, keys.len() as int);
    assert(a =~= b);
}

/// The positions of `keys` in stable ascending order.
pub fn stable_order(keys: &Vec<i64>) -> (order: Vec<usize>)
    ensures
        is_stable_order(order@, keys@),
{
    let n = keys.len();
    let mut order: Vec<usize> = Vec::new();
    let mut i: usize = 0;
    while i < n
        invariant
            i <= n,
            n == keys.len(),
            is_stable_order_of_first(order@, keys@, i as int),
        decreases n - i,
    {
        let key = keys[i];
        let mut p: usize = 0;
        while p < order.len() && keys[order[p]] <= key
            invariant
                p <= order.len(),
                i < n,
                n == keys.len(),
                key == keys[i as int],
                is_stable_order_of_first(order@, keys@, i as int),
                forall|j: int| 0 <= j < p ==> keys[order[j] as int] <= key,
            decreases order.len() - p,
        {
            p += 1;
        }
        let ghost before = order@;
        order.insert(p, i);
        proof {
            let after = order@;
            assert forall|a: int| 0 <= a < after.len() implies 0 <= #[trigger] after[a] < i + 1 by {
                if a < p {
                    assert(after[a] == before[a]);
                } else if a > p {
                    assert(after[a] == before[a - 1]);
                }
            }
            assert forall|a: int, b: int| 0 <= a < b < after.len() implies ranks_before(keys@, after[a] as int, after[b] as int) by {
                if a < p {
                    assert(after[a] == before[a]);
                    if b > p {
                        assert(after[b] == before[b - 1]);
                    }
                } else if a == p {
                    assert(after[b] == before[b - 1]);
                    if b - 1 > p {
                        assert(ranks_before(keys@, before[p as int] as int, before[b - 1] as int));
                    }
                } else {
                    assert(after[a] == before[a - 1]);
                    assert(after[b] == before[b - 1]);
                }
            }
            assert forall|k: usize| 0 <= k < i + 1 implies #[trigger] after.contains(k) by {
                if k < i {
                    assert(before.contains(k));
                    let j = choose|j: int| 0 <= j < before.len() && before[j] == k;
                    if j < p {
                        assert(after[j] == k);
                    } else {
                        assert(after[j + 1] == k);
                    }
                } else {
                    assert(after[p as int] == k);
                }
            }
        }
        i += 1;
    }
    order
}

} // verus!

//! The order of a stable sort from the largest key down, as a list of
//! indices.

use vstd::prelude::*;

verus! {

/// Index `a` comes before index `b`: its key is larger, or the keys are equal
/// and `a` is the earlier index.
pub open spec fn precedes(keys: Seq<u64>, a: int, b: int) -> bool {
    keys[a] > keys[b] || (keys[a] == keys[b] && a < b)
}

/// `order` lists every index of `keys` exactly once, from the largest key
/// down, keeping equal keys in their original order: the order in which a
/// stable sort by descending key leaves the elements.
pub open spec fn is_desc_order(keys: Seq<u64>, order: Seq<usize>) -> bool {
    &&& order.len() == keys.len()
    &&& forall|k: int| 0 <= k < order.len() ==> #[trigger] order[k] < keys.len()
    &&& forall|i: usize| i < keys.len() ==> #[trigger] order.contains(i)
    &&& forall|k: int, l: int|
        0 <= k < l < order.len() ==> precedes(keys, #[trigger] order[k] as int, #[trigger] order[l] as int)
}

/// The stable descending order of `keys`.
pub open spec fn desc_order(keys: Seq<u64>) -> Seq<usize> {
    choose|order: Seq<usize>| is_desc_order(keys, order)
}

proof fn lemma_sorted_sets_equal(keys: Seq<u64>, a: Seq<usize>, b: Seq<usize>)
    requires
        forall|k: int| 0 <= k < a.len() ==> #[trigger] a[k] < keys.len(),
        forall|k: int| 0 <= k < b.len() ==> #[trigger] b[k] < keys.len(),
        forall|k: int, l: int| 0 <= k < l < a.len() ==> precedes(keys, #[trigger] a[k] as int, #[trigger] a[l] as int),
        forall|k: int, l: int| 0 <= k < l < b.len() ==> precedes(keys, #[trigger] b[k] as int, #[trigger] b[l] as int),
        forall|x: usize| a.contains(x) <==> b.contains(x),
    ensures
        a == b,
    decreases a.len(),
{
    if a.len() == 0 {
        if b.len() > 0 {
            assert(b.contains(b[0]));
        }
        assert(a =~= b);
    } else {
        assert(a.contains(a[0]));
        assert(b.len() > 0);
        let j = choose|j: int| 0 <= j < b.len() && b[j] == a[0];
        assert(b.contains(b[0]));
        let i = choose|i: int| 0 <= i < a.len() && a[i] == b[0];
        if j > 0 && i > 0 {
            assert(precedes(keys, b[0] as int, b[j] as int));
            assert(precedes(keys, a[0] as int, a[i] as int));
            assert(false);
        }
        assert(a[0] == b[0]);
        let a1 = a.drop_first();
        let b1 = b.drop_first();
        assert forall|x: usize| a1.contains(x) <==> b1.contains(x) by {
            if a1.contains(x) {
                let p = choose|p: int| 0 <= p < a1.len() && a1[p] == x;
                assert(a[p + 1] == x);
                assert(precedes(keys, a[0] as int, a[p + 1] as int));
                assert(b.contains(x));
                let q = choose|q: int| 0 <= q < b.len() && b[q] == x;
                assert(q != 0);
                assert(b1[q - 1] == x);
            }
            if b1.contains(x) {
                let p = choose|p: int| 0 <= p < b1.len() && b1[p] == x;
                assert(b[p + 1] == x);
                assert(precedes(keys, b[0] as int, b[p + 1] as int));
                assert(a.contains(x));
                let q = choose|q: int| 0 <= q < a.len() && a[q] == x;
                assert(q != 0);
                assert(a1[q - 1] == x);
            }
        }
        assert forall|k: int, l: int| 0 <= k < l < a1.len() implies precedes(keys, #[trigger] a1[k] as int, #[trigger] a1[l] as int) by {
            assert(a1[k] == a[k + 1] && a1[l] == a[l + 1]);
        }
        assert forall|k: int, l: int| 0 <= k < l < b1.len() implies precedes(keys, #[trigger] b1[k] as int, #[trigger] b1[l] as int) by {
            assert(b1[k] == b[k + 1] && b1[l] == b[l + 1]);
        }
        lemma_sorted_sets_equal(keys, a1, b1);
        assert(a =~= seq![a[0]] + a1);
        assert(b =~= seq![b[0]] + b1);
    }
}

/// A stable descending order is unique: any two orders that list every index
/// once, by descending key and keeping ties in place, are the same.
pub proof fn lemma_desc_order_unique(keys: Seq<u64>, a: Seq<usize>, b: Seq<usize>)
    requires
        is_desc_order(keys, a),
        is_desc_order(keys, b),
    ensures
        a == b,
{
    assert forall|x: usize| a.contains(x) <==> b.contains(x) by {
        if a.contains(x) {
            let p = choose|p: int| 0 <= p < a.len() && a[p] == x;
            assert(b.contains(x));
        }
        if b.contains(x) {
            let p = choose|p: int| 0 <= p < b.len() && b[p] == x;
            assert(a.contains(x));
        }
    }
    lemma_sorted_sets_equal(keys, a, b);
}

/// A stable descending order exists for every list of keys.
proof fn stable_order_witness(keys: Seq<u64>) -> (order: Seq<usize>)
    requires
        keys.len() <= usize::MAX,
    ensures
        is_desc_order(keys, order),
    decreases keys.len(),
{
    if keys.len() == 0 {
        Seq::empty()
    } else {
        let n = (keys.len() - 1) as int;
        let rest = stable_order_witness(keys.drop_last());
        // The last index goes right after every index whose key is at least its own.
        let p = choose_insert_point(keys, rest, n);
        let order = rest.insert(p, n as usize);
        assert forall|k: int| 0 <= k < order.len() implies #[trigger] order[k] < keys.len() by {
            if k < p {
                assert(order[k] == rest[k]);
            } else if k > p {
                assert(order[k] == rest[k - 1]);
            }
        }
        assert forall|i: usize| i < keys.len() implies #[trigger] order.contains(i) by {
            if i as int == n {
                assert(order[p] == i);
            } else {
                assert(rest.contains(i));
                let q = choose|q: int| 0 <= q < rest.len() && rest[q] == i;
                if q < p {
                    assert(order[q] == i);
                } else {
                    assert(order[q + 1] == i);
                }
            }
        }
        assert forall|k: int, l: int| 0 <= k < l < order.len() implies precedes(
            keys,
            #[trigger] order[k] as int,
            #[trigger] order[l] as int,
        ) by {
            let dk = keys.drop_last();
            if l < p {
                assert(order[k] == rest[k] && order[l] == rest[l]);
                assert(precedes(dk, rest[k] as int, rest[l] as int));
            } else if k > p {
                assert(order[k] == rest[k - 1] && order[l] == rest[l - 1]);
                assert(precedes(dk, rest[k - 1] as int, rest[l - 1] as int));
            } else if l == p {
                assert(order[k] == rest[k]);
                assert(order[l] == n);
                assert(keys[rest[k] as int] >= keys[n]);
                assert(rest[k] < dk.len());
            } else if k == p {
                assert(order[k] == n);
                assert(order[l] == rest[l - 1]);
                assert(p < rest.len());
                assert(keys[rest[p] as int] < keys[n]);
                assert(rest[p] < dk.len() && rest[l - 1] < dk.len());
                if l - 1 > p {
                    assert(precedes(dk, rest[p] as int, rest[l - 1] as int));
                }
            } else {
                assert(order[k] == rest[k] && order[l] == rest[l - 1]);
                assert(precedes(dk, rest[k] as int, rest[l - 1] as int));
            }
        }
        order
    }
}

/// The place where the last index joins the order of the earlier ones: after
/// every index whose key is at least its own.
proof fn choose_insert_point(keys: Seq<u64>, rest: Seq<usize>, n: int) -> (p: int)
    requires
        n == keys.len() - 1,
        is_desc_order(keys.drop_last(), rest),
    ensures
        0 <= p <= rest.len(),
        forall|k: int| 0 <= k < p ==> keys[#[trigger] rest[k] as int] >= keys[n],
        p < rest.len() ==> keys[rest[p] as int] < keys[n],
{
    choose_point_from(keys, rest, n, 0)
}

proof fn choose_point_from(keys: Seq<u64>, rest: Seq<usize>, n: int, start: int) -> (p: int)
    requires
        n == keys.len() - 1,
        is_desc_order(keys.drop_last(), rest),
        0 <= start <= rest.len(),
        forall|k: int| 0 <= k < start ==> keys[#[trigger] rest[k] as int] >= keys[n],
    ensures
        start <= p <= rest.len(),
        forall|k: int| 0 <= k < p ==> keys[#[trigger] rest[k] as int] >= keys[n],
        p < rest.len() ==> keys[rest[p] as int] < keys[n],
    decreases rest.len() - start,
{
    if start == rest.len() {
        start
    } else {
        assert(rest[start] < keys.drop_last().len());
        if keys[rest[start] as int] < keys[n] {
            start
        } else {
            choose_point_from(keys, rest, n, start + 1)
        }
    }
}

/// Every list of keys that a vector can hold has a stable descending order.
pub proof fn lemma_desc_order_exists(keys: Seq<u64>)
    requires
        keys.len() <= usize::MAX,
    ensures
        is_desc_order(keys, desc_order(keys)),
{
    let witness = stable_order_witness(keys);
    assert(is_desc_order(keys, witness));
}

/// The indices of `keys` in the order that a stable sort from the largest key
/// down leaves them.
pub fn stable_desc_order(keys: &Vec<u64>) -> (order: Vec<usize>)
    ensures
        is_desc_order(keys@, order@),
        order@ == desc_order(keys@),
{
    let n = keys.len();
    let mut order: Vec<usize> = Vec::new();
    let mut i: usize = 0;
    while i < n
        invariant
            i <= n == keys.len(),
            order.len() == i,
            forall|k: int| 0 <= k < order.len() ==> #[trigger] order@[k] < i,
            forall|j: usize| j < i ==> #[trigger] order@.contains(j),
            forall|k: int, l: int|
                0 <= k < l < order.len() ==> precedes(keys@, #[trigger] order@[k] as int, #[trigger] order@[l] as int),
        decreases n - i,
    {
        let mut p: usize = 0;
        while p < order.len() && !(keys[i] > keys[order[p]])
            invariant
                p <= order.len(),
                i < n == keys.len(),
                forall|k: int| 0 <= k < order.len() ==> #[trigger] order@[k] < i,
                forall|k: int| 0 <= k < p ==> keys@[#[trigger] order@[k] as int] >= keys@[i as int],
            decreases order.len() - p,
        {
            p = p + 1;
        }
        let ghost old_order = order@;
        order.insert(p, i);
        proof {
            assert forall|k: int| 0 <= k < order.len() implies #[trigger] order@[k] < i + 1 by {
                if k < p {
                    assert(order@[k] == old_order[k]);
                } else if k > p {
                    assert(order@[k] == old_order[k - 1]);
                }
            }
            assert forall|j: usize| j < i + 1 implies #[trigger] order@.contains(j) by {
                if j == i {
                    assert(order@[p as int] == i);
                } else {
                    assert(old_order.contains(j));
                    let q = choose|q: int| 0 <= q < old_order.len() && old_order[q] == j;
                    if q < p {
                        assert(order@[q] == j);
                    } else {
                        assert(order@[q + 1] == j);
                    }
                }
            }
            assert forall|k: int, l: int| 0 <= k < l < order.len() implies precedes(
                keys@,
                #[trigger] order@[k] as int,
                #[trigger] order@[l] as int,
            ) by {
                if l < p {
                    assert(order@[k] == old_order[k] && order@[l] == old_order[l]);
                } else if k > p {
                    assert(order@[k] == old_order[k - 1] && order@[l] == old_order[l - 1]);
                } else if l == p {
                    assert(order@[k] == old_order[k]);
                    assert(keys@[old_order[k] as int] >= keys@[i as int]);
                } else if k == p {
                    assert(order@[l] == old_order[l - 1]);
                    if l - 1 > p {
                        assert(precedes(keys@, old_order[p as int] as int, old_order[l - 1] as int));
                    }
                } else {
                    assert(order@[k] == old_order[k] && order@[l] == old_order[l - 1]);
                }
            }
        }
        i = i + 1;
    }
    proof {
        lemma_desc_order_unique(keys@, order@, desc_order(keys@));
    }
    order
}

} // verus!

//! The order of a directory listing: directories before files, and within
//! each group by lowercase name in code-point order; items with equal keys
//! keep the order in which they were listed.
use vstd::prelude::*;

use crate::text::{chars_lt, lemma_lex_irreflexive, lemma_lex_total, lemma_lex_transitive, lex_lt};

verus! {

/// A sort key: whether the item is a directory, and its lowercase name.
pub type SortKey = (bool, Seq<char>);

/// `a` sorts strictly before `b`.
pub open spec fn key_lt(a: SortKey, b: SortKey) -> bool {
    (a.0 && !b.0) || (a.0 == b.0 && lex_lt(a.1, b.1))
}

/// Facts of the key order: irreflexive, asymmetric, total up to equality.
pub proof fn lemma_key_total(a: SortKey, b: SortKey)
    ensures
        !key_lt(a, a),
        !(key_lt(a, b) && key_lt(b, a)),
        key_lt(a, b) || key_lt(b, a) || a == b,
{
    lemma_lex_irreflexive(a.1);
    lemma_lex_total(a.1, b.1);
}

/// The key order is transitive.
pub proof fn lemma_key_transitive(a: SortKey, b: SortKey, c: SortKey)
    requires
        key_lt(a, b),
        key_lt(b, c),
    ensures
        key_lt(a, c),
{
    if a.0 == b.0 && b.0 == c.0 {
        lemma_lex_transitive(a.1, b.1, c.1);
    }
}

/// If `x` is before `a` and `b` is not before `a`, then `x` is before `b`.
proof fn lemma_before_moves_right(x: SortKey, a: SortKey, b: SortKey)
    requires
        key_lt(x, a),
        !key_lt(b, a),
    ensures
        key_lt(x, b),
{
    lemma_key_total(a, b);
    if key_lt(a, b) {
        lemma_key_transitive(x, a, b);
    }
}

/// If `x` is not before `a` and `a` is not before `b`, then `x` is not before `b`.
proof fn lemma_not_before_moves_left(x: SortKey, a: SortKey, b: SortKey)
    requires
        !key_lt(x, a),
        !key_lt(a, b),
    ensures
        !key_lt(x, b),
{
    lemma_key_total(x, a);
    lemma_key_total(a, b);
    if key_lt(x, b) {
        if key_lt(a, x) {
            lemma_key_transitive(a, x, b);
        }
    }
}

/// `perm` lists every index of `ks` once, in key order, and items with equal
/// keys in the order of their indices (a stable sort of `ks`).
pub open spec fn is_stable_order(perm: Seq<int>, ks: Seq<SortKey>) -> bool {
    &&& perm.len() == ks.len()
    &&& forall|k: int| 0 <= k < perm.len() ==> 0 <= #[trigger] perm[k] < ks.len()
    &&& forall|k: int, l: int| 0 <= k < l < perm.len() ==> perm[k] != perm[l]
    &&& forall|k: int, l: int|
        0 <= k < l < perm.len() ==> !key_lt(ks[#[trigger] perm[l]], ks[#[trigger] perm[k]])
    &&& forall|k: int, l: int|
        0 <= k < l < perm.len() && ks[#[trigger] perm[k]] == ks[#[trigger] perm[l]] ==> perm[k]
            < perm[l]
}

/// The keys of `keys` as spec values.
pub open spec fn key_view(keys: Seq<(bool, Vec<char>)>) -> Seq<SortKey> {
    keys.map_values(|k: (bool, Vec<char>)| (k.0, k.1@))
}

/// The indices as integers.
pub open spec fn index_view(order: Seq<usize>) -> Seq<int> {
    order.map_values(|x: usize| x as int)
}

/// Whether key `a` sorts strictly before key `b`.
fn key_less(a: &(bool, Vec<char>), b: &(bool, Vec<char>)) -> (r: bool)
    ensures
        r == key_lt((a.0, a.1@), (b.0, b.1@)),
{
    if a.0 && !b.0 {
        true
    } else if a.0 == b.0 {
        chars_lt(&a.1, &b.1)
    } else {
        false
    }
}

/// The indices of `keys` in stable sorted order (insertion sort; the place of
/// each item is found by binary search).
pub fn stable_order(keys: &Vec<(bool, Vec<char>)>) -> (order: Vec<usize>)
    ensures
        is_stable_order(index_view(order@), key_view(keys@)),
{
    let ghost ks = key_view(keys@);
    let mut order: Vec<usize> = Vec::new();
    let n = keys.len();
    let mut i: usize = 0;
    while i < n
        invariant
            n == keys.len(),
            ks == key_view(keys@),
            i <= n,
            order.len() == i,
            forall|k: int| 0 <= k < order.len() ==> #[trigger] order@[k] < i,
            forall|k: int, l: int| 0 <= k < l < order.len() ==> order@[k] != order@[l],
            forall|k: int, l: int|
                0 <= k < l < order.len() ==> !key_lt(
                    ks[#[trigger] order@[l] as int],
                    ks[#[trigger] order@[k] as int],
                ),
            forall|k: int, l: int|
                0 <= k < l < order.len() && ks[#[trigger] order@[k] as int] == ks[
                    #[trigger] order@[l] as int
                ] ==> order@[k] < order@[l],
        decreases n - i,
    {
        let ghost x = ks[i as int];
        let mut lo: usize = 0;
        let mut hi: usize = order.len();
        while lo < hi
            invariant
                n == keys.len(),
                ks == key_view(keys@),
                i < n,
                x == ks[i as int],
                order.len() == i,
                lo <= hi <= order.len(),
                forall|k: int| 0 <= k < order.len() ==> #[trigger] order@[k] < i,
                forall|k: int, l: int|
                    0 <= k < l < order.len() ==> !key_lt(
                        ks[#[trigger] order@[l] as int],
                        ks[#[trigger] order@[k] as int],
                    ),
                forall|k: int| 0 <= k < lo ==> !key_lt(x, #[trigger] ks[order@[k] as int]),
                forall|k: int| hi <= k < order.len() ==> key_lt(x, #[trigger] ks[order@[k] as int]),
            decreases hi - lo,
        {
            let mid = lo + (hi - lo) / 2;
            let j = order[mid];
            if key_less(&keys[i], &keys[j]) {
                assert forall|k: int| mid <= k < order.len() implies key_lt(
                    x,
                    #[trigger] ks[order@[k] as int],
                ) by {
                    if k > mid && k < hi {
                        lemma_before_moves_right(
                            x,
                            ks[order@[mid as int] as int],
                            ks[order@[k] as int],
                        );
                    }
                }
                hi = mid;
            } else {
                assert forall|k: int| 0 <= k < mid + 1 implies !key_lt(
                    x,
                    #[trigger] ks[order@[k] as int],
                ) by {
                    if k < mid && k >= lo {
                        lemma_not_before_moves_left(
                            x,
                            ks[order@[mid as int] as int],
                            ks[order@[k] as int],
                        );
                    }
                }
                lo = mid + 1;
            }
        }
        let ghost old_order = order@;
        let p = lo;
        order.insert(p, i);
        proof {
            assert forall|k: int| 0 <= k < order.len() implies #[trigger] order@[k] < i + 1 by {
                if k < p {
                    assert(order@[k] == old_order[k]);
                } else if k > p {
                    assert(order@[k] == old_order[k - 1]);
                }
            }
            assert forall|k: int, l: int| 0 <= k < l < order.len() implies order@[k]
                != order@[l] by {
                if k < p {
                    assert(order@[k] == old_order[k]);
                } else if k > p {
                    assert(order@[k] == old_order[k - 1]);
                }
                if l < p {
                    assert(order@[l] == old_order[l]);
                } else if l > p {
                    assert(order@[l] == old_order[l - 1]);
                }
            }
            assert forall|k: int, l: int| 0 <= k < l < order.len() implies !key_lt(
                ks[#[trigger] order@[l] as int],
                ks[#[trigger] order@[k] as int],
            ) by {
                if l < p {
                    assert(order@[l] == old_order[l]);
                    assert(order@[k] == old_order[k]);
                } else if l == p {
                    assert(order@[k] == old_order[k]);
                } else if k < p {
                    assert(order@[l] == old_order[l - 1]);
                    assert(order@[k] == old_order[k]);
                } else if k == p {
                    assert(order@[l] == old_order[l - 1]);
                    lemma_key_total(x, ks[old_order[l - 1] as int]);
                } else {
                    assert(order@[l] == old_order[l - 1]);
                    assert(order@[k] == old_order[k - 1]);
                }
            }
            assert forall|k: int, l: int|
                0 <= k < l < order.len() && ks[#[trigger] order@[k] as int] == ks[
                    #[trigger] order@[l] as int
                ] implies order@[k] < order@[l] by {
                if l < p {
                    assert(order@[l] == old_order[l]);
                    assert(order@[k] == old_order[k]);
                } else if l == p {
                    assert(order@[k] == old_order[k]);
                } else if k < p {
                    assert(order@[l] == old_order[l - 1]);
                    assert(order@[k] == old_order[k]);
                } else if k == p {
                    assert(order@[l] == old_order[l - 1]);
                    lemma_key_total(x, ks[old_order[l - 1] as int]);
                } else {
                    assert(order@[l] == old_order[l - 1]);
                    assert(order@[k] == old_order[k - 1]);
                }
            }
        }
        i = i + 1;
    }
    proof {
        let perm = index_view(order@);
        assert forall|k: int| 0 <= k < perm.len() implies 0 <= #[trigger] perm[k] < ks.len() by {
            assert(order@[k] < n);
        }
        assert forall|k: int, l: int| 0 <= k < l < perm.len() implies perm[k] != perm[l] by {
            assert(order@[k] != order@[l]);
        }
        assert forall|k: int, l: int| 0 <= k < l < perm.len() implies !key_lt(
            ks[#[trigger] perm[l]],
            ks[#[trigger] perm[k]],
        ) by {
            assert(!key_lt(ks[order@[l] as int], ks[order@[k] as int]));
        }
        assert forall|k: int, l: int|
            0 <= k < l < perm.len() && ks[#[trigger] perm[k]] == ks[#[trigger] perm[l]] implies perm[k]
                < perm[l] by {
            assert(ks[order@[k] as int] == ks[order@[l] as int]);
        }
    }
    order
}

/// Index `i` goes before index `j` in a stable sort of `ks`.
pub open spec fn goes_before(ks: Seq<SortKey>, i: int, j: int) -> bool {
    key_lt(ks[i], ks[j]) || (ks[i] == ks[j] && i < j)
}

/// A stable order lists every index of `ks`.
proof fn lemma_order_covers(perm: Seq<int>, ks: Seq<SortKey>, j: int)
    requires
        is_stable_order(perm, ks),
        0 <= j < ks.len(),
    ensures
        perm.contains(j),
{
    broadcast use vstd::seq_lib::seq_to_set_is_finite;

    let n = ks.len() as int;
    assert(perm.no_duplicates());
    perm.unique_seq_to_set();
    vstd::set_lib::lemma_int_range(0, n);
    let r = vstd::set_lib::set_int_range(0, n);
    assert(perm.to_set().subset_of(r)) by {
        assert forall|x: int| perm.to_set().contains(x) implies r.contains(x) by {
            let k = choose|k: int| 0 <= k < perm.len() && perm[k] == x;
            assert(0 <= perm[k] < n);
        }
    }
    vstd::set_lib::lemma_subset_equality(perm.to_set(), r);
    assert(r.contains(j));
    assert(perm.to_set().contains(j));
}

/// In a stable order, every earlier index goes before every later one.
proof fn lemma_order_increasing(perm: Seq<int>, ks: Seq<SortKey>, k: int, l: int)
    requires
        is_stable_order(perm, ks),
        0 <= k < l < perm.len(),
    ensures
        goes_before(ks, perm[k], perm[l]),
{
    lemma_key_total(ks[perm[k]], ks[perm[l]]);
    assert(!key_lt(ks[perm[l]], ks[perm[k]]));
    if ks[perm[k]] == ks[perm[l]] {
        assert(perm[k] < perm[l]);
    }
}

proof fn lemma_orders_agree_up_to(p1: Seq<int>, p2: Seq<int>, ks: Seq<SortKey>, k: int)
    requires
        is_stable_order(p1, ks),
        is_stable_order(p2, ks),
        0 <= k < ks.len(),
    ensures
        forall|t: int| 0 <= t <= k ==> p1[t] == p2[t],
    decreases k,
{
    if k > 0 {
        lemma_orders_agree_up_to(p1, p2, ks, k - 1);
    }
    let x = p1[k];
    let y = p2[k];
    if x != y {
        lemma_key_total(ks[x], ks[y]);
        if goes_before(ks, x, y) {
            lemma_order_covers(p2, ks, x);
            let k2 = choose|k2: int| 0 <= k2 < p2.len() && p2[k2] == x;
            if k2 < k {
                assert(p1[k2] == x);
            } else {
                lemma_order_increasing(p2, ks, k, k2);
                lemma_key_total(ks[x], ks[y]);
            }
        } else {
            assert(goes_before(ks, y, x));
            lemma_order_covers(p1, ks, y);
            let k1 = choose|k1: int| 0 <= k1 < p1.len() && p1[k1] == y;
            if k1 < k {
                assert(p2[k1] == y);
            } else {
                lemma_order_increasing(p1, ks, k, k1);
                lemma_key_total(ks[x], ks[y]);
            }
        }
    }
}

/// There is only one stable order of a list of keys: the order of a sorted
/// listing is fully determined by what is listed.
pub proof fn lemma_stable_order_unique(p1: Seq<int>, p2: Seq<int>, ks: Seq<SortKey>)
    requires
        is_stable_order(p1, ks),
        is_stable_order(p2, ks),
    ensures
        p1 == p2,
{
    if ks.len() > 0 {
        lemma_orders_agree_up_to(p1, p2, ks, ks.len() - 1);
    }
    assert(p1 =~= p2);
}

} // verus!

//! Stable ordering by a composite key: a number, then two strings in
//! character order. Items with equal keys keep the order they came in.
use vstd::prelude::*;

use crate::text::{
    lemma_seq_char_lt_asymmetric, lemma_seq_char_lt_irreflexive, lemma_seq_char_lt_total,
    lemma_seq_char_lt_transitive, seq_char_lt, str_eq, str_lt,
};

verus! {

/// A sort key: `rank` first, then `first`, then `second`.
#[derive(Debug, Clone)]
pub struct SortKey {
    pub rank: u64,
    pub first: String,
    pub second: String,
}

/// The value of a key.
pub type KeyView = (int, Seq<char>, Seq<char>);

pub open spec fn key_view(k: SortKey) -> KeyView {
    (k.rank as int, k.first@, k.second@)
}

/// Lexicographic strict order of key values.
pub open spec fn key_lt(a: KeyView, b: KeyView) -> bool {
    ||| a.0 < b.0
    ||| a.0 == b.0 && seq_char_lt(a.1, b.1)
    ||| a.0 == b.0 && a.1 == b.1 && seq_char_lt(a.2, b.2)
}

/// Position `i` of `keys` comes before position `j` in a stable sort.
pub open spec fn pos_before(keys: Seq<KeyView>, i: int, j: int) -> bool {
    key_lt(keys[i], keys[j]) || (keys[i] == keys[j] && i < j)
}

/// `order` lists every position of `keys` exactly once, in stable sorted
/// order.
pub open spec fn is_stable_order(keys: Seq<KeyView>, order: Seq<int>) -> bool {
    &&& order.len() == keys.len()
    &&& forall|k: int| 0 <= k < order.len() ==> 0 <= #[trigger] order[k] < keys.len()
    &&& forall|i: int| 0 <= i < keys.len() ==> #[trigger] order.contains(i)
    &&& forall|a: int, b: int| 0 <= a < b < order.len() ==> pos_before(keys, #[trigger] order[a], #[trigger] order[b])
}

pub proof fn lemma_key_lt_order(a: KeyView, b: KeyView, c: KeyView)
    ensures
        !key_lt(a, a),
        key_lt(a, b) && key_lt(b, c) ==> key_lt(a, c),
        key_lt(a, b) ==> !key_lt(b, a),
        a == b || key_lt(a, b) || key_lt(b, a),
{
    lemma_seq_char_lt_irreflexive(a.1);
    lemma_seq_char_lt_irreflexive(a.2);
    lemma_seq_char_lt_total(a.1, b.1);
    lemma_seq_char_lt_total(a.2, b.2);
    if seq_char_lt(a.1, b.1) {
        lemma_seq_char_lt_asymmetric(a.1, b.1);
    }
    if seq_char_lt(a.2, b.2) {
        lemma_seq_char_lt_asymmetric(a.2, b.2);
    }
    if key_lt(a, b) && key_lt(b, c) {
        if seq_char_lt(a.1, b.1) && seq_char_lt(b.1, c.1) {
            lemma_seq_char_lt_transitive(a.1, b.1, c.1);
        }
        if seq_char_lt(a.2, b.2) && seq_char_lt(b.2, c.2) {
            lemma_seq_char_lt_transitive(a.2, b.2, c.2);
        }
    }
}

proof fn lemma_pos_before_order(keys: Seq<KeyView>, a: int, b: int, c: int)
    ensures
        !pos_before(keys, a, a),
        pos_before(keys, a, b) && pos_before(keys, b, c) ==> pos_before(keys, a, c),
        pos_before(keys, a, b) ==> !pos_before(keys, b, a),
        a != b ==> pos_before(keys, a, b) || pos_before(keys, b, a),
{
    lemma_key_lt_order(keys[a], keys[b], keys[c]);
    lemma_key_lt_order(keys[b], keys[a], keys[c]);
    lemma_key_lt_order(keys[a], keys[c], keys[b]);
}

/// `a`'s key sorts strictly before `b`'s.
pub fn key_less(a: &SortKey, b: &SortKey) -> (r: bool)
    ensures
        r == key_lt(key_view(*a), key_view(*b)),
{
    if a.rank != b.rank {
        return a.rank < b.rank;
    }
    if str_lt(a.first.as_str(), b.first.as_str()) {
        return true;
    }
    if !str_eq(a.first.as_str(), b.first.as_str()) {
        return false;
    }
    str_lt(a.second.as_str(), b.second.as_str())
}

/// The positions of `keys` in stable sorted order (what a stable sort of
/// the keyed items by their keys produces).
pub fn stable_order(keys: &Vec<SortKey>) -> (order: Vec<usize>)
    ensures
        is_stable_order(keys@.map_values(|k: SortKey| key_view(k)), order@.map_values(|i: usize| i as int)),
{
    let ghost ks = keys@.map_values(|k: SortKey| key_view(k));
    let mut order: Vec<usize> = Vec::new();
    let mut n: usize = 0;
    while n < keys.len()
        invariant
            ks == keys@.map_values(|k: SortKey| key_view(k)),
            n <= keys@.len(),
            order@.len() == n,
            forall|k: int| 0 <= k < order@.len() ==> 0 <= #[trigger] order@[k] < n,
            forall|i: int| 0 <= i < n ==> #[trigger] order@.contains(i as usize),
            forall|a: int, b: int| 0 <= a < b < order@.len() ==> pos_before(ks, #[trigger] order@[a] as int, #[trigger] order@[b] as int),
        decreases keys@.len() - n,
    {
        let mut p: usize = 0;
        while p < order.len() && !key_less(&keys[n], &keys[order[p]])
            invariant
                ks == keys@.map_values(|k: SortKey| key_view(k)),
                n < keys@.len(),
                p <= order@.len(),
                forall|k: int| 0 <= k < order@.len() ==> 0 <= #[trigger] order@[k] < n,
                forall|k: int| 0 <= k < p ==> pos_before(ks, #[trigger] order@[k] as int, n as int),
            decreases order@.len() - p,
        {
            proof {
                let o = order@[p as int] as int;
                lemma_key_lt_order(ks[n as int], ks[o], ks[o]);
                assert(ks[n as int] == key_view(keys@[n as int]));
                assert(ks[o] == key_view(keys@[o]));
            }
            p = p + 1;
        }
        let ghost old_order = order@;
        proof {
            if p < old_order.len() {
                let o = old_order[p as int] as int;
                assert(ks[n as int] == key_view(keys@[n as int]));
                assert(ks[o] == key_view(keys@[o]));
                assert(pos_before(ks, n as int, o));
            }
            assert forall|k: int| p <= k < old_order.len() implies pos_before(ks, n as int, #[trigger] old_order[k] as int) by {
                if k > p {
                    assert(pos_before(ks, old_order[p as int] as int, old_order[k] as int));
                    lemma_pos_before_order(ks, n as int, old_order[p as int] as int, old_order[k] as int);
                }
            }
        }
        order.insert(p, n);
        proof {
            let no = order@;
            assert forall|a: int, b: int| 0 <= a < b < no.len() implies pos_before(ks, #[trigger] no[a] as int, #[trigger] no[b] as int) by {
                if a < p && b < p {
                } else if a < p && b == p {
                } else if a < p && b > p {
                    assert(no[b] == old_order[b - 1]);
                    lemma_pos_before_order(ks, no[a] as int, n as int, no[b] as int);
                } else if a == p {
                    assert(no[b] == old_order[b - 1]);
                } else {
                    assert(no[a] == old_order[a - 1]);
                    assert(no[b] == old_order[b - 1]);
                }
            }
            assert forall|i: int| 0 <= i < n + 1 implies #[trigger] no.contains(i as usize) by {
                if i == n {
                    assert(no[p as int] == n);
                } else {
                    assert(old_order.contains(i as usize));
                    let k = choose|k: int| 0 <= k < old_order.len() && old_order[k] == i as usize;
                    if k < p {
                        assert(no[k] == old_order[k]);
                    } else {
                        assert(no[k + 1] == old_order[k]);
                    }
                }
            }
            assert forall|k: int| 0 <= k < no.len() implies 0 <= #[trigger] no[k] < n + 1 by {
                if k < p {
                    assert(no[k] == old_order[k]);
                } else if k > p {
                    assert(no[k] == old_order[k - 1]);
                }
            }
        }
        n = n + 1;
    }
    proof {
        let v = order@.map_values(|i: usize| i as int);
        assert forall|i: int| 0 <= i < ks.len() implies #[trigger] v.contains(i) by {
            assert(order@.contains(i as usize));
            let k = choose|k: int| 0 <= k < order@.len() && order@[k] == i as usize;
            assert(v[k] == i);
        }
    }
    order
}

/// A stable order lists each position once.
pub proof fn lemma_stable_order_distinct(keys: Seq<KeyView>, order: Seq<int>, a: int, b: int)
    requires
        is_stable_order(keys, order),
        0 <= a < order.len(),
        0 <= b < order.len(),
        a != b,
    ensures
        order[a] != order[b],
{
    let x = order[a];
    lemma_key_lt_order(keys[x], keys[x], keys[x]);
    if a < b {
        assert(pos_before(keys, order[a], order[b]));
    } else {
        assert(pos_before(keys, order[b], order[a]));
    }
}

/// The items taken in the given order: entry `k` of the result is item
/// `order[k]`. `order` must list distinct positions of `items`.
pub fn apply_order<T>(items: Vec<T>, order: &Vec<usize>) -> (r: Vec<T>)
    requires
        order@.len() == items@.len(),
        forall|k: int| 0 <= k < order@.len() ==> #[trigger] order@[k] < items@.len(),
        forall|a: int, b: int| 0 <= a < b < order@.len() ==> #[trigger] order@[a] != #[trigger] order@[b],
    ensures
        r@.len() == order@.len(),
        forall|k: int| 0 <= k < r@.len() ==> #[trigger] r@[k] == items@[order@[k] as int],
{
    let ghost orig = items@;
    let n = items.len();
    let mut items = items;
    let mut slots: Vec<Option<T>> = Vec::new();
    while items.len() > 0
        invariant
            items@.len() + slots@.len() == n,
            n == orig.len(),
            items@ == orig.subrange(0, items@.len() as int),
            forall|q: int| 0 <= q < slots@.len() ==> #[trigger] slots@[q] == Some(orig[n - 1 - q]),
        decreases items@.len(),
    {
        let x = items.pop();
        match x {
            Some(v) => {
                slots.push(Some(v));
            },
            None => {},
        }
        assert(items@ =~= orig.subrange(0, items@.len() as int));
    }
    let mut r: Vec<T> = Vec::new();
    let mut k: usize = 0;
    while k < order.len()
        invariant
            n == orig.len(),
            order@.len() == n,
            slots@.len() == n,
            forall|q: int| 0 <= q < order@.len() ==> #[trigger] order@[q] < n,
            forall|a: int, b: int| 0 <= a < b < order@.len() ==> #[trigger] order@[a] != #[trigger] order@[b],
            k <= n,
            r@.len() == k,
            forall|q: int| 0 <= q < k ==> #[trigger] r@[q] == orig[order@[q] as int],
            forall|a: int| k <= a < n ==> slots@[n - 1 - #[trigger] order@[a]] == Some(orig[order@[a] as int]),
        decreases n - k,
    {
        let idx = order[k];
        let mut taken: Option<T> = None;
        std::mem::swap(&mut slots[n - 1 - idx], &mut taken);
        proof {
            assert forall|a: int| k + 1 <= a < n implies slots@[n - 1 - #[trigger] order@[a]] == Some(orig[order@[a] as int]) by {
                assert(order@[a] != order@[k as int]);
            }
        }
        match taken {
            Some(v) => {
                r.push(v);
            },
            None => {
                proof {
                    assert(false);
                }
            },
        }
        k = k + 1;
    }
    r
}

/// A stable order of a key sequence is unique.
pub proof fn lemma_stable_order_unique(keys: Seq<KeyView>, o1: Seq<int>, o2: Seq<int>)
    requires
        is_stable_order(keys, o1),
        is_stable_order(keys, o2),
    ensures
        o1 == o2,
{
    assert forall|k: int| 0 <= k < o1.len() implies o1[k] == o2[k] by {
        lemma_stable_orders_agree_up_to(keys, o1, o2, k);
    }
    assert(o1 =~= o2);
}

proof fn lemma_stable_orders_agree_up_to(keys: Seq<KeyView>, o1: Seq<int>, o2: Seq<int>, k: int)
    requires
        is_stable_order(keys, o1),
        is_stable_order(keys, o2),
        0 <= k < o1.len(),
    ensures
        o1[k] == o2[k],
    decreases k,
{
    assert forall|i: int| 0 <= i < k implies o1[i] == o2[i] by {
        lemma_stable_orders_agree_up_to(keys, o1, o2, i);
    }
    let x = o1[k];
    let y = o2[k];
    if x != y {
        assert(o2.contains(x));
        let m = choose|m: int| 0 <= m < o2.len() && o2[m] == x;
        assert(o1.contains(y));
        let m2 = choose|m: int| 0 <= m < o1.len() && o1[m] == y;
        if m < k {
            assert(o1[m] == o2[m]);
            lemma_stable_order_distinct(keys, o1, m, k);
        }
        if m2 < k {
            assert(o1[m2] == o2[m2]);
            lemma_stable_order_distinct(keys, o2, m2, k);
        }
        assert(m > k);
        assert(m2 > k);
        assert(pos_before(keys, o2[k], o2[m]));
        assert(pos_before(keys, o1[k], o1[m2]));
        lemma_pos_before_order(keys, x, y, x);
    }
}

/// The stable order of a key sequence.
pub open spec fn stable_sorted(keys: Seq<KeyView>) -> Seq<int> {
    choose|o: Seq<int>| is_stable_order(keys, o)
}

/// Any stable order of the keys is the stable order.
pub proof fn lemma_is_stable_sorted(keys: Seq<KeyView>, order: Seq<int>)
    requires
        is_stable_order(keys, order),
    ensures
        stable_sorted(keys) == order,
{
    let o = stable_sorted(keys);
    assert(is_stable_order(keys, o));
    lemma_stable_order_unique(keys, o, order);
}

/// Positions in a stable order are distinct and in range.
pub proof fn lemma_stable_order_positions(keys: Seq<KeyView>, order: Seq<usize>)
    requires
        is_stable_order(keys, order.map_values(|i: usize| i as int)),
    ensures
        order.len() == keys.len(),
        forall|k: int| 0 <= k < order.len() ==> #[trigger] order[k] < keys.len(),
        forall|a: int, b: int| 0 <= a < b < order.len() ==> #[trigger] order[a] != #[trigger] order[b],
{
    let ov = order.map_values(|i: usize| i as int);
    assert forall|k: int| 0 <= k < order.len() implies #[trigger] order[k] < keys.len() by {
        assert(ov[k] == order[k] as int);
    }
    assert forall|a: int, b: int| 0 <= a < b < order.len() implies #[trigger] order[a] != #[trigger] order[b] by {
        lemma_stable_order_distinct(keys, ov, a, b);
        assert(ov[a] == order[a] as int);
        assert(ov[b] == order[b] as int);
    }
}

} // verus!

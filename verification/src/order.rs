//! Ordering by a key, the largest first; equal keys keep their order.
use vstd::prelude::*;

verus! {

/// Item `i` comes before item `j`.
pub open spec fn comes_before(keys: Seq<i128>, i: int, j: int) -> bool {
    keys[i] > keys[j] || (keys[i] == keys[j] && i < j)
}

/// How many of the first `m` items come before item `j`.
pub open spec fn earlier(keys: Seq<i128>, j: int, m: nat) -> nat
    decreases m,
{
    if m == 0 {
        0
    } else {
        earlier(keys, j, (m - 1) as nat) + (if comes_before(keys, m - 1, j) {
            1nat
        } else {
            0nat
        })
    }
}

/// The place of an item: how many come before it.
pub open spec fn rank(keys: Seq<i128>, j: int) -> int {
    earlier(keys, j, keys.len()) as int
}

/// The item at a place.
pub open spec fn largest_at(keys: Seq<i128>, k: int) -> int {
    choose|i: int| 0 <= i < keys.len() && rank(keys, i) == k
}

proof fn lemma_earlier_monotone(keys: Seq<i128>, i: int, j: int, m: nat)
    requires
        0 <= i < keys.len(),
        0 <= j < keys.len(),
        comes_before(keys, i, j),
        m <= keys.len(),
    ensures
        earlier(keys, i, m) + (if i < m {
            1nat
        } else {
            0nat
        }) <= earlier(keys, j, m),
    decreases m,
{
    if m > 0 {
        lemma_earlier_monotone(keys, i, j, (m - 1) as nat);
    }
}

proof fn lemma_earlier_bound(keys: Seq<i128>, j: int, m: nat)
    requires
        0 <= j < keys.len(),
        m <= keys.len(),
    ensures
        earlier(keys, j, m) <= m,
        j < m ==> earlier(keys, j, m) < m,
    decreases m,
{
    if m > 0 {
        lemma_earlier_bound(keys, j, (m - 1) as nat);
    }
}

/// No two items have the same place.
pub proof fn places_differ(keys: Seq<i128>, i: int, j: int)
    requires
        0 <= i < keys.len(),
        0 <= j < keys.len(),
        rank(keys, i) == rank(keys, j),
    ensures
        i == j,
{
    if i != j {
        if comes_before(keys, i, j) {
            lemma_earlier_monotone(keys, i, j, keys.len());
        } else {
            lemma_earlier_monotone(keys, j, i, keys.len());
        }
    }
}

/// An item with a larger key has a lower place.
pub proof fn larger_keys_come_first(keys: Seq<i128>, i: int, j: int)
    requires
        0 <= i < keys.len(),
        0 <= j < keys.len(),
        keys[i] > keys[j],
    ensures
        0 <= rank(keys, i) < rank(keys, j) < keys.len(),
{
    lemma_earlier_monotone(keys, i, j, keys.len());
    lemma_earlier_bound(keys, j, keys.len());
}

/// Every place is some item's.
pub proof fn every_place_is_taken(keys: Seq<i128>, k: int)
    requires
        0 <= k < keys.len(),
    ensures
        exists|i: int| 0 <= i < keys.len() && rank(keys, i) == k,
{
    let n = keys.len();
    let f = |i: int| rank(keys, i);
    let dom = vstd::set_lib::set_int_range(0, n as int);
    vstd::set_lib::lemma_int_range(0, n as int);
    let img = dom.map(f);
    assert(vstd::relations::injective_on(f, dom)) by {
        assert forall|a: int, b: int|
            dom.contains(a) && dom.contains(b) && #[trigger] f(a) == #[trigger] f(b) implies a
            == b by {
            places_differ(keys, a, b);
        }
    }
    vstd::set_lib::lemma_map_size(dom, img, f);
    assert(img.subset_of(dom)) by {
        assert forall|r: int| img.contains(r) implies dom.contains(r) by {
            let i = choose|i: int| dom.contains(i) && r == f(i);
            lemma_earlier_bound(keys, i, n);
        }
    }
    vstd::set_lib::lemma_subset_equality(img, dom);
    assert(dom.contains(k));
    assert(img.contains(k));
    let i = choose|i: int| dom.contains(i) && k == f(i);
    assert(rank(keys, i) == k);
}

fn rank_of(keys: &Vec<i128>, j: usize) -> (r: usize)
    requires
        j < keys@.len(),
    ensures
        r == rank(keys@, j as int),
        r < keys@.len(),
{
    let n: usize = keys.len();
    let mut i: usize = 0;
    let mut count: usize = 0;
    while i < n
        invariant
            i <= n,
            j < n,
            n == keys@.len(),
            count == earlier(keys@, j as int, i as nat),
            count <= i,
        decreases n - i,
    {
        if keys[i] > keys[j] || (keys[i] == keys[j] && i < j) {
            count += 1;
        }
        i += 1;
    }
    proof {
        lemma_earlier_bound(keys@, j as int, keys@.len());
    }
    count
}

/// The items' indices in the order of their places.
pub fn largest_first(keys: &Vec<i128>) -> (r: Vec<usize>)
    ensures
        r@.len() == keys@.len(),
        forall|k: int|
            0 <= k < r@.len() ==> 0 <= #[trigger] r@[k] < keys@.len() && rank(keys@, r@[k] as int)
                == k && r@[k] == largest_at(keys@, k),
{
    let n: usize = keys.len();
    let mut out: Vec<usize> = Vec::new();
    let mut i: usize = 0;
    while i < n
        invariant
            i <= n,
            n == keys@.len(),
            out@.len() == i,
        decreases n - i,
    {
        out.push(0);
        i += 1;
    }
    let mut j: usize = 0;
    while j < n
        invariant
            j <= n,
            n == keys@.len(),
            out@.len() == n,
            forall|i: int| 0 <= i < j ==> out@[#[trigger] rank(keys@, i)] == i,
        decreases n - j,
    {
        let k: usize = rank_of(keys, j);
        let ghost before = out@;
        out.set(k, j);
        proof {
            assert forall|i: int| 0 <= i < j + 1 implies out@[#[trigger] rank(keys@, i)] == i by {
                if i < j {
                    lemma_earlier_bound(keys@, i, keys@.len());
                    if rank(keys@, i) == k {
                        places_differ(keys@, i, j as int);
                    }
                    assert(before[rank(keys@, i)] == i);
                }
            }
        }
        j += 1;
    }
    proof {
        assert forall|k: int| 0 <= k < out@.len() implies 0 <= #[trigger] out@[k] < keys@.len()
            && rank(keys@, out@[k] as int) == k && out@[k] == largest_at(keys@, k) by {
            every_place_is_taken(keys@, k);
            let i = choose|i: int| 0 <= i < keys@.len() && rank(keys@, i) == k;
            assert(out@[rank(keys@, i)] == i);
        }
    }
    out
}

/// What stands at an earlier place is not smaller.
pub proof fn earlier_places_hold_larger_keys(keys: Seq<i128>, a: int, b: int)
    requires
        0 <= a < b < keys.len(),
    ensures
        keys[largest_at(keys, a)] >= keys[largest_at(keys, b)],
{
    every_place_is_taken(keys, a);
    every_place_is_taken(keys, b);
    let i = largest_at(keys, a);
    let j = largest_at(keys, b);
    if keys[i] < keys[j] {
        larger_keys_come_first(keys, j, i);
    }
}

/// Every item stands at some place.
pub proof fn every_item_has_a_place(keys: Seq<i128>, i: int)
    requires
        0 <= i < keys.len(),
    ensures
        0 <= rank(keys, i) < keys.len(),
        largest_at(keys, rank(keys, i)) == i,
{
    lemma_earlier_bound(keys, i, keys.len());
    places_differ(keys, largest_at(keys, rank(keys, i)), i);
}

/// Of two equal keys the one that stands first comes first.
pub proof fn equal_keys_keep_their_order(keys: Seq<i128>, i: int, j: int)
    requires
        0 <= i < j < keys.len(),
        keys[i] == keys[j],
    ensures
        rank(keys, i) < rank(keys, j),
{
    lemma_earlier_monotone(keys, i, j, keys.len());
}

} // verus!

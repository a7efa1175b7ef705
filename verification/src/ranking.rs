//! Ranking items by an integer key, highest first and stable among equals:
//! how the vault lists its notes and which memories a soul keeps.
use vstd::prelude::*;

verus! {

/// `order` ranks the items by key, highest first: each index of `keys` once,
/// by non-increasing key, items with equal keys in the order they came (what
/// a stable sort by descending key yields).
pub open spec fn is_ranked(keys: Seq<u128>, order: Seq<usize>) -> bool {
    &&& order.len() == keys.len()
    &&& forall|i: int| 0 <= i < order.len() ==> #[trigger] order[i] < keys.len()
    &&& forall|i: int, j: int| 0 <= i < j < order.len() ==> #[trigger] order[i] != #[trigger] order[j]
    &&& forall|i: int, j: int|
        0 <= i < j < order.len() ==> keys[#[trigger] order[i] as int] >= keys[#[trigger] order[j] as int]
    &&& forall|i: int, j: int|
        0 <= i < j < order.len() && keys[#[trigger] order[i] as int] == keys[#[trigger] order[j] as int]
            ==> order[i] < order[j]
}

/// `order` ranks the first `k` items.
spec fn sorted_prefix(keys: Seq<u128>, order: Seq<usize>, k: int) -> bool {
    &&& order.len() == k
    &&& forall|i: int| 0 <= i < order.len() ==> #[trigger] order[i] < k
    &&& forall|i: int, j: int| 0 <= i < j < order.len() ==> #[trigger] order[i] != #[trigger] order[j]
    &&& forall|i: int, j: int|
        0 <= i < j < order.len() ==> keys[#[trigger] order[i] as int] >= keys[#[trigger] order[j] as int]
    &&& forall|i: int, j: int|
        0 <= i < j < order.len() && keys[#[trigger] order[i] as int] == keys[#[trigger] order[j] as int]
            ==> order[i] < order[j]
}

/// Where the `i`-th entry of `o.insert(p, k)` came from in `o` (for `i != p`).
spec fn source_index(i: int, p: int) -> int {
    if i < p {
        i
    } else {
        i - 1
    }
}

proof fn lemma_insert_keeps_sorted(keys: Seq<u128>, o: Seq<usize>, k: usize, p: int)
    requires
        k < keys.len(),
        sorted_prefix(keys, o, k as int),
        0 <= p <= o.len(),
        forall|i: int| 0 <= i < p ==> keys[#[trigger] o[i] as int] >= keys[k as int],
        forall|i: int| p <= i < o.len() ==> keys[#[trigger] o[i] as int] < keys[k as int],
    ensures
        sorted_prefix(keys, o.insert(p, k), k + 1),
{
    let n = o.insert(p, k);
    o.insert_ensures(p, k);
    assert forall|i: int| 0 <= i < n.len() && i != p implies #[trigger] n[i] == o[source_index(i, p)] by {
        if i > p {
            assert(o[i - 1] == n[(i - 1) + 1]);
        }
    }
    assert(n[p] == k);
    assert forall|i: int| 0 <= i < n.len() implies #[trigger] n[i] < k + 1 by {
        if i != p {
            assert(n[i] == o[source_index(i, p)]);
        }
    }
    assert forall|i: int, j: int| 0 <= i < j < n.len() implies #[trigger] n[i] != #[trigger] n[j] by {
        if i != p && j != p {
            assert(n[i] == o[source_index(i, p)]);
            assert(n[j] == o[source_index(j, p)]);
            assert(source_index(i, p) < source_index(j, p));
        } else if i == p {
            assert(n[j] == o[source_index(j, p)]);
        } else {
            assert(n[i] == o[source_index(i, p)]);
        }
    }
    assert forall|i: int, j: int| 0 <= i < j < n.len() implies keys[#[trigger] n[i] as int]
        >= keys[#[trigger] n[j] as int] by {
        if i != p && j != p {
            assert(n[i] == o[source_index(i, p)]);
            assert(n[j] == o[source_index(j, p)]);
            assert(source_index(i, p) < source_index(j, p));
        } else if i == p {
            assert(n[j] == o[source_index(j, p)]);
            assert(source_index(j, p) >= p);
        } else {
            assert(n[i] == o[source_index(i, p)]);
            assert(source_index(i, p) < p);
        }
    }
    assert forall|i: int, j: int|
        0 <= i < j < n.len() && keys[#[trigger] n[i] as int] == keys[#[trigger] n[j] as int] implies n[i]
        < n[j] by {
        if i != p && j != p {
            assert(n[i] == o[source_index(i, p)]);
            assert(n[j] == o[source_index(j, p)]);
            assert(source_index(i, p) < source_index(j, p));
        } else if i == p {
            assert(n[j] == o[source_index(j, p)]);
            assert(source_index(j, p) >= p);
        } else {
            assert(n[i] == o[source_index(i, p)]);
        }
    }
}

/// The ranking of items with keys `keys`: highest key first, equal keys in
/// the order they came.
pub fn rank_descending(keys: &Vec<u128>) -> (order: Vec<usize>)
    ensures
        is_ranked(keys@, order@),
{
    let mut order: Vec<usize> = Vec::new();
    let mut k: usize = 0;
    while k < keys.len()
        invariant
            k <= keys.len(),
            sorted_prefix(keys@, order@, k as int),
        decreases keys.len() - k,
    {
        let key_k = keys[k];
        let mut p: usize = 0;
        while p < order.len() && keys[order[p]] >= key_k
            invariant
                k < keys.len(),
                key_k == keys@[k as int],
                sorted_prefix(keys@, order@, k as int),
                p <= order.len(),
                forall|i: int| 0 <= i < p ==> keys@[#[trigger] order@[i] as int] >= key_k,
            decreases order.len() - p,
        {
            p = p + 1;
        }
        proof {
            assert forall|i: int| p <= i < order@.len() implies keys@[#[trigger] order@[i] as int]
                < key_k by {
                assert(keys@[order@[p as int] as int] < key_k);
                if i > p {
                    assert(keys@[order@[p as int] as int] >= keys@[order@[i] as int]);
                }
            }
            lemma_insert_keeps_sorted(keys@, order@, k, p as int);
        }
        order.insert(p, k);
        k = k + 1;
    }
    order
}

/// How many memories survive a pruning.
pub const MEMORY_KEEP: usize = 400;

/// The memories a pruning keeps, as indices into the memories in their
/// current order: all of them, in place, when there are at most four hundred;
/// otherwise the four hundred ranked highest, in rank order (the memories are
/// then re-ordered so).
pub open spec fn is_pruning(keys: Seq<u128>, kept: Seq<usize>) -> bool {
    if keys.len() <= MEMORY_KEEP {
        kept == Seq::new(keys.len(), |i: int| i as usize)
    } else {
        exists|r: Seq<usize>| #[trigger] is_ranked(keys, r) && kept == r.take(MEMORY_KEEP as int)
    }
}

/// Which memories to keep when pruning, given each memory's key (its
/// importance first, then its time).
pub fn prune_order(keys: &Vec<u128>) -> (kept: Vec<usize>)
    ensures
        is_pruning(keys@, kept@),
{
    if keys.len() <= MEMORY_KEEP {
        let mut kept: Vec<usize> = Vec::new();
        let mut i: usize = 0;
        while i < keys.len()
            invariant
                i <= keys.len(),
                kept@ == Seq::new(i as nat, |j: int| j as usize),
            decreases keys.len() - i,
        {
            kept.push(i);
            proof {
                assert(kept@ =~= Seq::new((i + 1) as nat, |j: int| j as usize));
            }
            i = i + 1;
        }
        kept
    } else {
        let mut r = rank_descending(keys);
        let ghost full = r@;
        r.truncate(MEMORY_KEEP);
        proof {
            assert(r@ =~= full.take(MEMORY_KEEP as int));
            assert(is_ranked(keys@, full));
        }
        r
    }
}

} // verus!

use vstd::prelude::*;

verus! {

/// Position `a` comes before position `b` when its key is smaller, or when the
/// keys are equal and `a` comes first: the order of a stable sort by key.
pub open spec fn sorts_before(keys: Seq<u64>, a: int, b: int) -> bool {
    keys[a] < keys[b] || (keys[a] == keys[b] && a < b)
}

/// `order` lists positions of `keys`, each below `n`, in the order of a stable sort
/// by key.
pub open spec fn stably_sorted(keys: Seq<u64>, order: Seq<usize>, n: int) -> bool {
    &&& forall|i: int| 0 <= i < order.len() ==> (#[trigger] order[i]) < n
    &&& forall|i: int, j: int|
        0 <= i < j < order.len() ==> sorts_before(keys, #[trigger] order[i] as int, #[trigger] order[j] as int)
}

/// The positions of `keys` in the order a stable sort by key puts them
/// (`sort_by_key` on the keys): every position once, smaller keys first, equal
/// keys in the order they were given.
pub fn stable_order(keys: &Vec<u64>) -> (order: Vec<usize>)
    ensures
        order@.len() == keys@.len(),
        stably_sorted(keys@, order@, keys@.len() as int),
{
    let mut order: Vec<usize> = Vec::new();
    let mut k: usize = 0;
    while k < keys.len()
        invariant
            k <= keys@.len(),
            order@.len() == k,
            stably_sorted(keys@, order@, k as int),
        decreases keys.len() - k,
    {
        let key = keys[k];
        let mut pos: usize = 0;
        while pos < order.len() && keys[order[pos]] <= key
            invariant
                pos <= order@.len(),
                order@.len() == k,
                k < keys@.len(),
                key == keys@[k as int],
                stably_sorted(keys@, order@, k as int),
                forall|i: int| 0 <= i < pos ==> keys@[#[trigger] order@[i] as int] <= key,
            decreases order.len() - pos,
        {
            pos = pos + 1;
        }
        let ghost old_order = order@;
        proof {
            if pos < old_order.len() {
                assert forall|i: int| pos <= i < old_order.len() implies keys@[#[trigger] old_order[i] as int] > key by {
                    if i > pos {
                        assert(sorts_before(keys@, old_order[pos as int] as int, old_order[i] as int));
                    }
                }
            }
        }
        order.insert(pos, k);
        proof {
            let o = order@;
            assert(o == old_order.insert(pos as int, k));
            assert forall|i: int| 0 <= i < o.len() implies (#[trigger] o[i]) < k + 1 by {
                if i < pos {
                    assert(o[i] == old_order[i]);
                } else if i > pos {
                    assert(o[i] == old_order[i - 1]);
                }
            }
            assert forall|i: int, j: int|
                0 <= i < j < o.len() implies sorts_before(keys@, #[trigger] o[i] as int, #[trigger] o[j] as int) by {
                if j < pos {
                    assert(o[i] == old_order[i] && o[j] == old_order[j]);
                } else if j == pos {
                    assert(o[i] == old_order[i]);
                    assert(keys@[old_order[i] as int] <= key);
                } else if i < pos {
                    assert(o[i] == old_order[i] && o[j] == old_order[j - 1]);
                } else if i == pos {
                    assert(o[j] == old_order[j - 1]);
                    assert(keys@[old_order[j - 1] as int] > key);
                } else {
                    assert(o[i] == old_order[i - 1] && o[j] == old_order[j - 1]);
                }
            }
        }
        k = k + 1;
    }
    order
}

} // verus!

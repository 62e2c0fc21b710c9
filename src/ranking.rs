use vstd::prelude::*;
use vstd::set_lib::{lemma_int_range, lemma_len_subset, lemma_subset_equality, set_int_range};

verus! {

/// Whether the entry at index `i` must come before the entry at index `j`
/// in a stable ascending order of `keys`: a smaller key first, and on equal
/// keys the earlier index first.
pub open spec fn precedes(keys: Seq<i64>, i: int, j: int) -> bool {
    keys[i] < keys[j] || (keys[i] == keys[j] && i < j)
}

/// `ord` is the stable ascending ordering of `keys`: it lists every index of
/// `keys` once, and each listed index precedes all that follow it.
pub open spec fn is_stable_ordering(keys: Seq<i64>, ord: Seq<usize>) -> bool {
    &&& ord.len() == keys.len()
    &&& forall|k: int| 0 <= k < ord.len() ==> #[trigger] ord[k] < keys.len()
    &&& forall|k: int, l: int|
        0 <= k < l < ord.len() ==> precedes(keys, #[trigger] ord[k] as int, #[trigger] ord[l] as int)
}

/// The sequence whose `k`-th entry is the entry of `s` at `ord[k]`.
pub open spec fn permuted<T>(s: Seq<T>, ord: Seq<usize>) -> Seq<T> {
    Seq::new(ord.len(), |k: int| s[ord[k] as int])
}

/// Whether `keys` is in ascending (non-decreasing) order.
pub open spec fn is_ascending(keys: Seq<i64>) -> bool {
    forall|k: int, l: int| 0 <= k < l < keys.len() ==> keys[k] <= keys[l]
}

/// Sorts `items` and `costs` together, stably, by ascending cost, and
/// returns the ordering that was applied: entry `k` of the result is the
/// position that the `k`-th entry now held had before the call.
pub fn reorder<T>(items: &mut Vec<T>, costs: &mut Vec<i64>) -> (ord: Vec<usize>)
    requires
        old(items)@.len() == old(costs)@.len(),
    ensures
        is_stable_ordering(old(costs)@, ord@),
        final(costs)@ == permuted(old(costs)@, ord@),
        final(items)@ == permuted(old(items)@, ord@),
        is_ascending(final(costs)@),
{
    let ghost keys0 = costs@;
    let ghost items0 = items@;
    let n = costs.len();
    let mut ord: Vec<usize> = Vec::new();
    let mut k: usize = 0;
    while k < n
        invariant
            k <= n,
            ord@.len() == k,
            forall|m: int| 0 <= m < k ==> ord@[m] == m,
        decreases n - k,
    {
        ord.push(k);
        k = k + 1;
    }
    let mut i: usize = 1;
    while i < n
        invariant
            n == keys0.len(),
            items0.len() == n,
            costs@.len() == n,
            items@.len() == n,
            ord@.len() == n,
            forall|m: int| 0 <= m < n ==> #[trigger] ord@[m] < n,
            forall|m: int| 0 <= m < n ==> #[trigger] costs@[m] == keys0[ord@[m] as int],
            forall|m: int| 0 <= m < n ==> #[trigger] items@[m] == items0[ord@[m] as int],
            forall|m: int| i <= m < n ==> #[trigger] ord@[m] == m,
            forall|m: int| 0 <= m < i && m < n ==> #[trigger] ord@[m] < i,
            forall|a: int, b: int|
                0 <= a < b < i && b < n ==> precedes(keys0, #[trigger] ord@[a] as int, #[trigger] ord@[b] as int),
        decreases n - i,
    {
        let key = costs[i];
        let mut j: usize = i;
        while j > 0 && costs[j - 1] > key
            invariant
                j <= i < n,
                costs@.len() == n,
                key == costs@[i as int],
                forall|m: int| j <= m < i ==> #[trigger] costs@[m] > key,
            decreases j,
        {
            j = j - 1;
        }
        let ghost c1 = costs@;
        let ghost o1 = ord@;
        let ghost t1 = items@;
        let c = costs.remove(i);
        costs.insert(j, c);
        let o = ord.remove(i);
        ord.insert(j, o);
        let t = items.remove(i);
        items.insert(j, t);
        proof {
            assert(o == i);
            assert forall|m: int| 0 <= m < n implies #[trigger] ord@[m] == (if m < j {
                o1[m]
            } else if m == j {
                o1[i as int]
            } else if m <= i {
                o1[m - 1]
            } else {
                o1[m]
            }) by {}
            assert forall|m: int| 0 <= m < n implies #[trigger] costs@[m] == (if m < j {
                c1[m]
            } else if m == j {
                c1[i as int]
            } else if m <= i {
                c1[m - 1]
            } else {
                c1[m]
            }) by {}
            assert forall|m: int| 0 <= m < n implies #[trigger] items@[m] == (if m < j {
                t1[m]
            } else if m == j {
                t1[i as int]
            } else if m <= i {
                t1[m - 1]
            } else {
                t1[m]
            }) by {}
            assert forall|a: int, b: int|
                0 <= a < b < i + 1 && b < n implies precedes(
                keys0,
                #[trigger] ord@[a] as int,
                #[trigger] ord@[b] as int,
            ) by {
                if b < j {
                } else if b == j {
                    // everything before the insertion point has a key no larger
                    assert(c1[j - 1] <= key);
                    if a < j - 1 {
                        assert(precedes(keys0, o1[a] as int, o1[j - 1] as int));
                    }
                } else if a == j {
                    assert(c1[b - 1] > key);
                } else if a < j {
                    assert(precedes(keys0, o1[a] as int, o1[b - 1] as int));
                } else {
                    assert(precedes(keys0, o1[a - 1] as int, o1[b - 1] as int));
                }
            }
        }
        i = i + 1;
    }
    proof {
        assert(costs@ =~= permuted(keys0, ord@));
        assert(items@ =~= permuted(items0, ord@));
    }
    ord
}

/// The stable ascending ordering of `costs`: the list of their indices,
/// cheapest first, with equal costs kept in the order they were given.
pub fn calculate_ordering(costs: &Vec<i64>) -> (ord: Vec<usize>)
    ensures
        is_stable_ordering(costs@, ord@),
        is_ascending(permuted(costs@, ord@)),
{
    let mut keys = costs.clone();
    let mut payload = costs.clone();
    proof {
        assert(keys@ =~= costs@);
    }
    reorder(&mut payload, &mut keys)
}

/// Every index of `keys` is listed somewhere in a stable ordering of it.
pub proof fn lemma_ordering_lists_every_index(keys: Seq<i64>, ord: Seq<usize>, x: int)
    requires
        is_stable_ordering(keys, ord),
        0 <= x < keys.len(),
    ensures
        exists|k: int| 0 <= k < ord.len() && ord[k] == x,
{
    let n = keys.len() as int;
    let s = Seq::new(ord.len(), |k: int| ord[k] as int);
    assert forall|i: int, j: int| 0 <= i < s.len() && 0 <= j < s.len() && i != j implies s[i]
        != s[j] by {
        if i < j {
            assert(precedes(keys, ord[i] as int, ord[j] as int));
        } else {
            assert(precedes(keys, ord[j] as int, ord[i] as int));
        }
    }
    assert(s.no_duplicates());
    s.unique_seq_to_set();
    let range = set_int_range(0, n);
    lemma_int_range(0, n);
    assert forall|v: int| s.to_set().contains(v) implies range.contains(v) by {
        let k = choose|k: int| 0 <= k < s.len() && s[k] == v;
        assert(ord[k] < n);
    }
    lemma_len_subset(s.to_set(), range);
    lemma_subset_equality(s.to_set(), range);
    assert(range.contains(x));
    assert(s.to_set().contains(x));
    let k = choose|k: int| 0 <= k < s.len() && s[k] == x;
    assert(ord[k] == x);
}

/// Two stable orderings of the same keys agree on their first `k` entries.
proof fn lemma_orderings_agree_below(keys: Seq<i64>, o1: Seq<usize>, o2: Seq<usize>, k: int)
    requires
        is_stable_ordering(keys, o1),
        is_stable_ordering(keys, o2),
        0 <= k <= keys.len(),
    ensures
        forall|j: int| 0 <= j < k ==> o1[j] == o2[j],
    decreases k,
{
    if k > 0 {
        let i = k - 1;
        lemma_orderings_agree_below(keys, o1, o2, i);
        let x = o1[i] as int;
        let y = o2[i] as int;
        if x != y {
            lemma_ordering_lists_every_index(keys, o2, x);
            let l = choose|l: int| 0 <= l < o2.len() && o2[l] == x;
            if l < i {
                assert(o1[l] == o2[l]);
                assert(precedes(keys, o1[l] as int, o1[i] as int));
            }
            assert(precedes(keys, y, x));
            lemma_ordering_lists_every_index(keys, o1, y);
            let m = choose|m: int| 0 <= m < o1.len() && o1[m] == y;
            if m < i {
                assert(o1[m] == o2[m]);
                assert(precedes(keys, o2[m] as int, o2[i] as int));
            }
            assert(precedes(keys, x, y));
        }
    }
}

/// A sequence of costs has exactly one stable ordering, so ranking the same
/// costs always yields the same order.
pub proof fn lemma_stable_ordering_unique(keys: Seq<i64>, o1: Seq<usize>, o2: Seq<usize>)
    requires
        is_stable_ordering(keys, o1),
        is_stable_ordering(keys, o2),
    ensures
        o1 == o2,
{
    lemma_orderings_agree_below(keys, o1, o2, keys.len() as int);
    assert(o1 =~= o2);
}

} // verus!

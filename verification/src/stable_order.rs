//! The stable order of keys: the one arrangement of their positions that
//! puts the keys in order and keeps equal keys as they came.
use vstd::prelude::*;

verus! {

/// `perm` lists each of the positions `0..n` once.
pub open spec fn is_arrangement(perm: Seq<int>, n: nat) -> bool {
    &&& perm.len() == n
    &&& forall|i: int| 0 <= i < n ==> 0 <= #[trigger] perm[i] < n
    &&& forall|i: int, j: int| 0 <= i < j < n ==> perm[i] != perm[j]
}

/// `perm` lists position `j` among its first `n` entries.
pub open spec fn lists(perm: Seq<int>, n: nat, j: int) -> bool {
    exists|i: int| 0 <= i < n && perm[i] == j
}

/// No key is greater than one that follows it.
pub open spec fn in_order(keys: Seq<int>) -> bool {
    forall|i: int, j: int| 0 <= i <= j < keys.len() ==> keys[i] <= keys[j]
}

/// Taken in the order `perm`, the keys are in order, and equal keys are in
/// the order of their positions.
pub open spec fn orders_stably(keys: Seq<int>, perm: Seq<int>) -> bool {
    &&& is_arrangement(perm, keys.len())
    &&& forall|i: int, j: int|
        0 <= i <= j < keys.len() ==> keys[#[trigger] perm[i]] <= keys[#[trigger] perm[j]]
    &&& forall|i: int, j: int|
        0 <= i < j < keys.len() && keys[#[trigger] perm[i]] == keys[#[trigger] perm[j]]
            ==> perm[i] < perm[j]
}

/// The positions as integers.
pub open spec fn positions(perm: Seq<usize>) -> Seq<int> {
    Seq::new(perm.len(), |i: int| perm[i] as int)
}

/// The keys as integers.
pub open spec fn integers(keys: Seq<i64>) -> Seq<int> {
    Seq::new(keys.len(), |i: int| keys[i] as int)
}

/// An arrangement of `n` positions lists every one of them.
pub proof fn lemma_every_position_is_listed(perm: Seq<int>, n: nat)
    requires
        is_arrangement(perm, n),
    ensures
        forall|j: int| 0 <= j < n ==> #[trigger] lists(perm, n, j),
    decreases n,
{
    if n > 0 {
        let last = perm[n - 1];
        let shorter = Seq::new(
            (n - 1) as nat,
            |i: int|
                if perm[i] == n - 1 {
                    last
                } else {
                    perm[i]
                },
        );
        assert(is_arrangement(shorter, (n - 1) as nat)) by {
            assert forall|i: int| 0 <= i < n - 1 implies 0 <= #[trigger] shorter[i] < n - 1 by {
                assert(perm[i] != perm[n - 1]);
            }
            assert forall|i: int, j: int| 0 <= i < j < n - 1 implies shorter[i] != shorter[j] by {
                assert(perm[i] != perm[j]);
                assert(perm[i] != perm[n - 1]);
                assert(perm[j] != perm[n - 1]);
            }
        }
        lemma_every_position_is_listed(shorter, (n - 1) as nat);
        assert forall|j: int| 0 <= j < n implies #[trigger] lists(perm, n, j) by {
            if j == last {
                assert(perm[n - 1] == j);
            } else if j == n - 1 {
                assert(lists(shorter, (n - 1) as nat, last));
                let i = choose|i: int| 0 <= i < n - 1 && shorter[i] == last;
                assert(perm[i] != perm[n - 1]);
                assert(perm[i] == j);
            } else {
                assert(lists(shorter, (n - 1) as nat, j));
                let i = choose|i: int| 0 <= i < n - 1 && shorter[i] == j;
                assert(perm[i] == j);
            }
        }
    }
}

/// Two arrangements that order the same keys stably agree on the first
/// `upto` positions.
proof fn lemma_stable_orders_agree(keys: Seq<int>, pa: Seq<int>, pb: Seq<int>, upto: nat)
    requires
        orders_stably(keys, pa),
        orders_stably(keys, pb),
        upto <= keys.len(),
    ensures
        forall|i: int| 0 <= i < upto ==> pa[i] == pb[i],
    decreases upto,
{
    if upto > 0 {
        lemma_stable_orders_agree(keys, pa, pb, (upto - 1) as nat);
        let n = keys.len();
        let i = upto - 1;
        let j = pa[i];
        let k = pb[i];
        if j != k {
            lemma_every_position_is_listed(pa, n);
            lemma_every_position_is_listed(pb, n);
            assert(lists(pb, n, j));
            assert(lists(pa, n, k));
            let c = choose|c: int| 0 <= c < n && pb[c] == j;
            let d = choose|d: int| 0 <= d < n && pa[d] == k;
            if c < i {
                assert(pa[c] == pb[c]);
                assert(pa[c] != pa[i]);
            }
            if d < i {
                assert(pa[d] == pb[d]);
                assert(pb[d] != pb[i]);
            }
            assert(c > i && d > i);
            assert(keys[pa[i]] <= keys[pa[d]]);
            assert(keys[pb[i]] <= keys[pb[c]]);
            assert(false);
        }
    }
}

/// Keys have one stable order.
pub proof fn lemma_stable_order_is_unique(keys: Seq<int>, first: Seq<int>, second: Seq<int>)
    requires
        orders_stably(keys, first),
        orders_stably(keys, second),
    ensures
        first == second,
{
    lemma_stable_orders_agree(keys, first, second, keys.len());
}

/// The stable order of keys that are in order is the order in which they
/// stand.
pub proof fn lemma_order_of_ordered_keys(keys: Seq<int>, perm: Seq<int>)
    requires
        in_order(keys),
        orders_stably(keys, perm),
    ensures
        perm == Seq::new(keys.len(), |i: int| i),
{
    let identity = Seq::new(keys.len(), |i: int| i);
    lemma_stable_order_is_unique(keys, perm, identity);
}

/// Position `x` comes before position `y` in the stable order: its key is
/// the smaller one, or the keys are equal and it is the earlier position.
pub open spec fn precedes(keys: Seq<int>, x: int, y: int) -> bool {
    keys[x] < keys[y] || (keys[x] == keys[y] && x < y)
}

/// `part` lists positions from `lo` up to `hi`, each before the next in the
/// stable order.
pub open spec fn ascends(keys: Seq<int>, part: Seq<usize>, lo: int, hi: int) -> bool {
    &&& forall|i: int| 0 <= i < part.len() ==> lo <= #[trigger] part[i] < hi
    &&& forall|i: int, j: int|
        0 <= i < j < part.len() ==> precedes(
            keys,
            #[trigger] part[i] as int,
            #[trigger] part[j] as int,
        )
}

/// Merges the stable orders of two adjoining ranges of positions into that
/// of the whole range.
fn merge_orders(
    keys: &Vec<i64>,
    left: &Vec<usize>,
    right: &Vec<usize>,
    Ghost(lo): Ghost<int>,
    Ghost(mid): Ghost<int>,
    Ghost(hi): Ghost<int>,
) -> (merged: Vec<usize>)
    requires
        0 <= lo <= mid <= hi <= keys@.len(),
        ascends(integers(keys@), left@, lo, mid),
        ascends(integers(keys@), right@, mid, hi),
    ensures
        merged@.len() == left@.len() + right@.len(),
        ascends(integers(keys@), merged@, lo, hi),
{
    let ghost k = integers(keys@);
    let mut merged: Vec<usize> = Vec::with_capacity(left.len());
    let mut a: usize = 0;
    let mut b: usize = 0;
    while a < left.len() || b < right.len()
        invariant
            0 <= lo <= mid <= hi <= keys@.len(),
            k == integers(keys@),
            ascends(k, left@, lo, mid),
            ascends(k, right@, mid, hi),
            0 <= a <= left@.len(),
            0 <= b <= right@.len(),
            merged@.len() == a + b,
            ascends(k, merged@, lo, hi),
            forall|i: int|
                0 <= i < merged@.len() && a < left@.len() ==> precedes(
                    k,
                    #[trigger] merged@[i] as int,
                    left@[a as int] as int,
                ),
            forall|i: int|
                0 <= i < merged@.len() && b < right@.len() ==> precedes(
                    k,
                    #[trigger] merged@[i] as int,
                    right@[b as int] as int,
                ),
        decreases left@.len() - a + right@.len() - b,
    {
        let from_left = if a >= left.len() {
            false
        } else if b >= right.len() {
            true
        } else {
            keys[left[a]] <= keys[right[b]]
        };
        if from_left {
            let next = left[a];
            merged.push(next);
            a = a + 1;
        } else {
            let next = right[b];
            merged.push(next);
            b = b + 1;
        }
    }
    merged
}

/// Finds the stable order of the positions from `lo` up to `hi` by merging
/// the orders of the two halves of the range.
fn order_range(keys: &Vec<i64>, lo: usize, hi: usize) -> (part: Vec<usize>)
    requires
        lo <= hi <= keys@.len(),
    ensures
        part@.len() == hi - lo,
        ascends(integers(keys@), part@, lo as int, hi as int),
    decreases hi - lo,
{
    if hi - lo <= 1 {
        let mut part: Vec<usize> = Vec::new();
        if lo < hi {
            part.push(lo);
        }
        part
    } else {
        let mid = lo + (hi - lo) / 2;
        let left = order_range(keys, lo, mid);
        let right = order_range(keys, mid, hi);
        merge_orders(keys, &left, &right, Ghost(lo as int), Ghost(mid as int), Ghost(hi as int))
    }
}

/// Finds the stable order of the keys, by merging.
pub fn stable_order(keys: &Vec<i64>) -> (perm: Vec<usize>)
    ensures
        orders_stably(integers(keys@), positions(perm@)),
{
    order_range(keys, 0, keys.len())
}

/// The items taken in the order `perm`.
pub open spec fn arranged<T>(items: Seq<T>, perm: Seq<int>) -> Seq<T> {
    Seq::new(perm.len(), |i: int| items[perm[i]])
}

/// `output` holds the items in the stable order of their keys: ordered by
/// key, and items of equal keys in the order in which `items` has them.
pub open spec fn is_stable_sort<T>(items: Seq<T>, keys: Seq<int>, output: Seq<T>) -> bool {
    &&& keys.len() == items.len()
    &&& exists|perm: Seq<int>|
        orders_stably(keys, perm) && output == #[trigger] arranged(items, perm)
}

/// Items have one stable sort by given keys.
pub proof fn lemma_stable_sort_is_unique<T>(
    items: Seq<T>,
    keys: Seq<int>,
    first: Seq<T>,
    second: Seq<T>,
)
    requires
        is_stable_sort(items, keys, first),
        is_stable_sort(items, keys, second),
    ensures
        first == second,
{
    let pa = choose|perm: Seq<int>| orders_stably(keys, perm) && first == #[trigger] arranged(
        items,
        perm,
    );
    let pb = choose|perm: Seq<int>| orders_stably(keys, perm) && second == #[trigger] arranged(
        items,
        perm,
    );
    lemma_stable_order_is_unique(keys, pa, pb);
}

/// Items whose keys are in order are their own stable sort.
pub proof fn lemma_ordered_items_stay<T>(items: Seq<T>, keys: Seq<int>, output: Seq<T>)
    requires
        in_order(keys),
        is_stable_sort(items, keys, output),
    ensures
        output == items,
{
    let perm = choose|perm: Seq<int>| orders_stably(keys, perm) && output == #[trigger] arranged(
        items,
        perm,
    );
    lemma_order_of_ordered_keys(keys, perm);
}

/// A stable sort keeps every item, as often as it occurs: `output[i]` is the
/// item at one position of `items`, and each position of `items` is taken
/// once.  The keys of the output's items are in order.
pub proof fn lemma_stable_sort_keeps_items<T>(items: Seq<T>, keys: Seq<int>, output: Seq<T>)
    requires
        is_stable_sort(items, keys, output),
    ensures
        output.len() == items.len(),
        forall|j: int| 0 <= j < items.len() ==> output.contains(#[trigger] items[j]),
        forall|i: int| 0 <= i < output.len() ==> items.contains(#[trigger] output[i]),
{
    let perm = choose|perm: Seq<int>| orders_stably(keys, perm) && output == #[trigger] arranged(
        items,
        perm,
    );
    lemma_every_position_is_listed(perm, items.len());
    assert forall|j: int| 0 <= j < items.len() implies output.contains(#[trigger] items[j]) by {
        assert(lists(perm, items.len(), j));
        let i = choose|i: int| 0 <= i < items.len() && perm[i] == j;
        assert(output[i] == items[perm[i]]);
    }
}

/// Sorts the items by their keys, stably; `keys[i]` is the key of
/// `items[i]`.
pub fn stable_sort_by_keys<T: Copy>(items: &Vec<T>, keys: &Vec<i64>) -> (output: Vec<T>)
    requires
        keys@.len() == items@.len(),
    ensures
        is_stable_sort(items@, integers(keys@), output@),
{
    let n = items.len();
    let perm = stable_order(keys);
    let mut output: Vec<T> = Vec::with_capacity(n);
    let mut i: usize = 0;
    while i < n
        invariant
            n == items@.len(),
            n == perm@.len(),
            0 <= i <= n,
            is_arrangement(positions(perm@), n as nat),
            output@.len() == i,
            forall|a: int| 0 <= a < i ==> #[trigger] output@[a] == items@[perm@[a] as int],
        decreases n - i,
    {
        assert(0 <= positions(perm@)[i as int] < n);
        output.push(items[perm[i]]);
        i = i + 1;
    }
    assert(output@ =~= arranged(items@, positions(perm@)));
    output
}

} // verus!

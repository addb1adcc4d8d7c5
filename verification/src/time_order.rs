//! The order of samples in time, and the sort that establishes it.
use vstd::prelude::*;
use crate::satellites::SatelliteEphemerisPoint;
use crate::stable_order::{
    arranged, is_stable_sort, lemma_ordered_items_stay, lemma_stable_sort_is_unique,
    lemma_stable_sort_keeps_items, orders_stably, stable_sort_by_keys,
};

verus! {

/// No sample is later than one that follows it.
pub open spec fn time_ordered(s: Seq<SatelliteEphemerisPoint>) -> bool {
    forall|i: int, j: int| 0 <= i <= j < s.len() ==> s[i].jd.key() <= s[j].jd.key()
}

/// Every sample's time is a number.
pub open spec fn times_are_numbers(s: Seq<SatelliteEphemerisPoint>) -> bool {
    forall|i: int| 0 <= i < s.len() ==> !(#[trigger] s[i]).jd.is_nan()
}

/// The keys of the samples' times.
pub open spec fn times(s: Seq<SatelliteEphemerisPoint>) -> Seq<int> {
    Seq::new(s.len(), |i: int| s[i].jd.key())
}

/// `output` is `input` sorted by time, stably: it holds the samples of
/// `input` in time order, those of equal time in the order in which `input`
/// has them.
pub open spec fn is_time_sort_of(
    input: Seq<SatelliteEphemerisPoint>,
    output: Seq<SatelliteEphemerisPoint>,
) -> bool {
    is_stable_sort(input, times(input), output)
}

/// Samples have one stable sort by time: the order of the result is
/// settled by the samples alone.
pub proof fn lemma_time_sort_is_unique(
    input: Seq<SatelliteEphemerisPoint>,
    first: Seq<SatelliteEphemerisPoint>,
    second: Seq<SatelliteEphemerisPoint>,
)
    requires
        is_time_sort_of(input, first),
        is_time_sort_of(input, second),
    ensures
        first == second,
{
    lemma_stable_sort_is_unique(input, times(input), first, second);
}

/// Samples that are in time order are their own sort: sorting leaves them
/// as they are.
pub proof fn lemma_ordered_samples_stay(
    input: Seq<SatelliteEphemerisPoint>,
    sorted: Seq<SatelliteEphemerisPoint>,
)
    requires
        time_ordered(input),
        is_time_sort_of(input, sorted),
    ensures
        sorted == input,
{
    lemma_ordered_items_stay(input, times(input), sorted);
}

/// A sort by time puts the samples in time order and keeps every one of
/// them: each sample of the input stands somewhere in the result, and each
/// sample of the result in the input.
pub proof fn lemma_time_sort_keeps_samples(
    input: Seq<SatelliteEphemerisPoint>,
    sorted: Seq<SatelliteEphemerisPoint>,
)
    requires
        is_time_sort_of(input, sorted),
    ensures
        sorted.len() == input.len(),
        time_ordered(sorted),
        forall|j: int| 0 <= j < input.len() ==> sorted.contains(#[trigger] input[j]),
        forall|i: int| 0 <= i < sorted.len() ==> input.contains(#[trigger] sorted[i]),
        times_are_numbers(input) <==> times_are_numbers(sorted),
{
    let keys = times(input);
    lemma_stable_sort_keeps_items(input, keys, sorted);
    let perm = choose|perm: Seq<int>| orders_stably(keys, perm) && sorted == #[trigger] arranged(
        input,
        perm,
    );
    assert forall|i: int, j: int| 0 <= i <= j < sorted.len() implies sorted[i].jd.key()
        <= sorted[j].jd.key() by {
        assert(keys[perm[i]] <= keys[perm[j]]);
    }
    if times_are_numbers(input) {
        assert forall|i: int| 0 <= i < sorted.len() implies !(#[trigger] sorted[i]).jd.is_nan() by {
            assert(sorted[i] == input[perm[i]]);
        }
    }
    if times_are_numbers(sorted) {
        assert forall|j: int| 0 <= j < input.len() implies !(#[trigger] input[j]).jd.is_nan() by {
            assert(sorted.contains(input[j]));
            let i = choose|i: int| 0 <= i < sorted.len() && sorted[i] == input[j];
            assert(!sorted[i].jd.is_nan());
        }
    }
}

/// Every sample is earlier than the one that follows it.
pub open spec fn strictly_time_ordered(s: Seq<SatelliteEphemerisPoint>) -> bool {
    forall|i: int, j: int| 0 <= i < j < s.len() ==> s[i].jd.key() < s[j].jd.key()
}

/// No two samples are of one time.
pub open spec fn times_are_distinct(s: Seq<SatelliteEphemerisPoint>) -> bool {
    forall|i: int, j: int| 0 <= i < j < s.len() ==> s[i].jd.key() != s[j].jd.key()
}

/// Samples of distinct times are, once sorted, of strictly increasing time.
pub proof fn lemma_distinct_times_ascend(
    input: Seq<SatelliteEphemerisPoint>,
    sorted: Seq<SatelliteEphemerisPoint>,
)
    requires
        times_are_distinct(input),
        is_time_sort_of(input, sorted),
    ensures
        strictly_time_ordered(sorted),
{
    let keys = times(input);
    let perm = choose|perm: Seq<int>| orders_stably(keys, perm) && sorted == #[trigger] arranged(
        input,
        perm,
    );
    assert forall|i: int, j: int| 0 <= i < j < sorted.len() implies sorted[i].jd.key()
        < sorted[j].jd.key() by {
        assert(keys[perm[i]] <= keys[perm[j]]);
        assert(perm[i] != perm[j]);
        if perm[i] < perm[j] {
            assert(input[perm[i]].jd.key() != input[perm[j]].jd.key());
        } else {
            assert(input[perm[j]].jd.key() != input[perm[i]].jd.key());
        }
    }
}

/// Sorts the samples by time, stably.
pub fn sort_by_time(points: Vec<SatelliteEphemerisPoint>) -> (sorted: Vec<SatelliteEphemerisPoint>)
    ensures
        is_time_sort_of(points@, sorted@),
        time_ordered(sorted@),
{
    let n = points.len();
    let mut keys: Vec<i64> = Vec::with_capacity(n);
    let mut i: usize = 0;
    while i < n
        invariant
            n == points@.len(),
            0 <= i <= n,
            keys@.len() == i,
            forall|a: int| 0 <= a < i ==> #[trigger] keys@[a] == points@[a].jd.key(),
        decreases n - i,
    {
        keys.push(points[i].jd.ordinal());
        i = i + 1;
    }
    let sorted = stable_sort_by_keys(&points, &keys);
    sorted
}

/// Whether every sample's time is a number.
pub fn all_times_are_numbers(points: &Vec<SatelliteEphemerisPoint>) -> (r: bool)
    ensures
        r == times_are_numbers(points@),
{
    let mut k: usize = 0;
    while k < points.len()
        invariant
            0 <= k <= points.len(),
            forall|i: int| 0 <= i < k ==> !(#[trigger] points@[i]).jd.is_nan(),
        decreases points.len() - k,
    {
        if points[k].jd.is_nan() {
            return false;
        }
        k = k + 1;
    }
    true
}

} // verus!

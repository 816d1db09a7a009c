//! What a ranking is, as mathematics: the order of the records, the rank of
//! each, and the facts that hold of every ranking.

use crate::key_sort::key_order;
use crate::models::{AggregatedPlayerAttribution, AttributionRecord, RankedAttributionRecord};
use vstd::prelude::*;
use vstd::relations::*;
use vstd::seq_lib::*;

verus! {

/// The key of each record: its value and its position in the record set.
pub open spec fn record_keys<A: AggregatedPlayerAttribution>(
    records: Seq<AttributionRecord<A>>,
) -> Seq<(u64, usize)> {
    Seq::new(records.len(), |i: int| (records[i].attribution.value(), i as usize))
}

/// The keys of the records in ranking order: larger values first, and among
/// equal values the record that came later in the record set first.
pub open spec fn ranking_order<A: AggregatedPlayerAttribution>(
    records: Seq<AttributionRecord<A>>,
) -> Seq<(u64, usize)> {
    record_keys(records).sort_by(key_order())
}

/// The values that a sequence of keys holds.
pub open spec fn key_values(keys: Seq<(u64, usize)>) -> Seq<u64> {
    Seq::new(keys.len(), |k: int| keys[k].0)
}

/// How many of the first `i` values are strictly greater than `x`.
pub open spec fn count_greater_before(values: Seq<u64>, i: int, x: u64) -> nat
    decreases i,
{
    if i <= 0 {
        0
    } else {
        count_greater_before(values, i - 1, x) + if values[i - 1] > x {
            1nat
        } else {
            0nat
        }
    }
}

/// The rank of the value at position `i`: one more than the number of
/// strictly greater values before it. Equal values share a rank, and the next
/// smaller value skips the ranks that the tie used up.
pub open spec fn competition_rank(values: Seq<u64>, i: int) -> nat {
    1 + count_greater_before(values, i, values[i])
}

/// The ranking of a record set: the records in ranking order, each with its
/// competition rank.
pub open spec fn ranking_of<A: AggregatedPlayerAttribution>(
    records: Seq<AttributionRecord<A>>,
) -> Seq<RankedAttributionRecord<A>> {
    let order = ranking_order(records);
    Seq::new(
        records.len(),
        |k: int|
            RankedAttributionRecord {
                rank: competition_rank(key_values(order), k) as u32,
                attribution_record: records[order[k].1 as int],
            },
    )
}

/// The values of the records of a ranking, in its order.
pub open spec fn ranked_values<A: AggregatedPlayerAttribution>(
    ranked: Seq<RankedAttributionRecord<A>>,
) -> Seq<u64> {
    Seq::new(ranked.len(), |k: int| ranked[k].attribution_record.attribution.value())
}

/// The records of a ranking without their ranks, in its order.
pub open spec fn ranked_records<A: AggregatedPlayerAttribution>(
    ranked: Seq<RankedAttributionRecord<A>>,
) -> Seq<AttributionRecord<A>> {
    Seq::new(ranked.len(), |k: int| ranked[k].attribution_record)
}

/// No value is followed by a greater one.
pub open spec fn descending(values: Seq<u64>) -> bool {
    forall|i: int, j: int| 0 <= i < j < values.len() ==> values[i] >= values[j]
}

/// What holds of every ranking: the values descend, every rank is the
/// competition rank of its position, and the ranks fit their type.
pub open spec fn is_ranked<A: AggregatedPlayerAttribution>(
    ranked: Seq<RankedAttributionRecord<A>>,
) -> bool {
    &&& ranked.len() <= u32::MAX
    &&& descending(ranked_values(ranked))
    &&& forall|k: int|
        0 <= k < ranked.len() ==> (#[trigger] ranked[k]).rank == competition_rank(
            ranked_values(ranked),
            k,
        )
}

/// A count of values before `i` is at most `i`.
pub proof fn lemma_count_bounded(values: Seq<u64>, i: int, x: u64)
    requires
        0 <= i,
    ensures
        count_greater_before(values, i, x) <= i,
    decreases i,
{
    if i > 0 {
        lemma_count_bounded(values, i - 1, x);
    }
}

/// Where every value before `i` is greater than `x`, the count is `i`.
pub proof fn lemma_count_all_greater(values: Seq<u64>, i: int, x: u64)
    requires
        0 <= i <= values.len(),
        forall|j: int| 0 <= j < i ==> values[j] > x,
    ensures
        count_greater_before(values, i, x) == i,
    decreases i,
{
    if i > 0 {
        lemma_count_all_greater(values, i - 1, x);
    }
}

/// The count looks only at the values before `i`.
pub proof fn lemma_count_depends_on_prefix(a: Seq<u64>, b: Seq<u64>, i: int, x: u64)
    requires
        0 <= i <= a.len(),
        i <= b.len(),
        forall|j: int| 0 <= j < i ==> a[j] == b[j],
    ensures
        count_greater_before(a, i, x) == count_greater_before(b, i, x),
    decreases i,
{
    if i > 0 {
        lemma_count_depends_on_prefix(a, b, i - 1, x);
    }
}

/// Values that are not greater than `x` add nothing to the count.
pub proof fn lemma_count_stays(values: Seq<u64>, i: int, j: int, x: u64)
    requires
        0 <= i <= j <= values.len(),
        forall|m: int| i <= m < j ==> values[m] <= x,
    ensures
        count_greater_before(values, j, x) == count_greater_before(values, i, x),
    decreases j - i,
{
    if i < j {
        lemma_count_stays(values, i, j - 1, x);
    }
}

/// The count never falls as more values are looked at.
pub proof fn lemma_count_grows(values: Seq<u64>, i: int, j: int, x: u64)
    requires
        0 <= i <= j,
    ensures
        count_greater_before(values, i, x) <= count_greater_before(values, j, x),
    decreases j - i,
{
    if i < j {
        lemma_count_grows(values, i, j - 1, x);
    }
}

/// How many of the values are strictly greater than `x`.
pub open spec fn count_greater(values: Seq<u64>, x: u64) -> nat {
    count_greater_before(values, values.len() as int, x)
}

/// Taking one value out lowers the count by one if that value is greater
/// than `x`, and leaves it otherwise.
pub proof fn lemma_count_without(values: Seq<u64>, j: int, x: u64)
    requires
        0 <= j < values.len(),
    ensures
        count_greater(values, x) == count_greater(values.remove(j), x) + if values[j] > x {
            1nat
        } else {
            0nat
        },
    decreases values.len(),
{
    let n = values.len() as int;
    let without = values.remove(j);
    if j == n - 1 {
        lemma_count_depends_on_prefix(values, without, n - 1, x);
    } else {
        let shorter = values.drop_last();
        lemma_count_without(shorter, j, x);
        assert(shorter.remove(j) =~= without.drop_last());
        lemma_count_depends_on_prefix(values, shorter, n - 1, x);
        lemma_count_depends_on_prefix(without, without.drop_last(), n - 2, x);
        assert(without[n - 2] == values[n - 1]);
    }
}

/// The count is the same for two sequences that hold the same values as
/// often as each other.
pub proof fn lemma_count_of_same_values(a: Seq<u64>, b: Seq<u64>, x: u64)
    requires
        a.to_multiset() == b.to_multiset(),
    ensures
        count_greater(a, x) == count_greater(b, x),
    decreases a.len(),
{
    broadcast use group_to_multiset_ensures;

    to_multiset_len(a);
    to_multiset_len(b);
    if a.len() > 0 {
        let n = a.len() as int;
        let last = a.last();
        assert(a.contains(last));
        assert(b.to_multiset().count(last) > 0);
        assert(b.contains(last));
        let j = choose|j: int| 0 <= j < b.len() && b[j] == last;
        assert(a.drop_last() =~= a.remove(n - 1));
        to_multiset_remove(a, n - 1);
        to_multiset_remove(b, j);
        lemma_count_of_same_values(a.remove(n - 1), b.remove(j), x);
        lemma_count_without(a, n - 1, x);
        lemma_count_without(b, j, x);
    }
}

/// In a descending sequence the rank of a position follows from the position
/// before it: the first position has rank 1, a value equal to the one before
/// it shares that rank, and a smaller one has its position, counted from 1,
/// as its rank.
pub proof fn lemma_rank_step(values: Seq<u64>, k: int)
    requires
        descending(values),
        0 <= k < values.len(),
    ensures
        k == 0 ==> competition_rank(values, k) == 1,
        k > 0 && values[k] == values[k - 1] ==> competition_rank(values, k) == competition_rank(
            values,
            k - 1,
        ),
        k > 0 && values[k] != values[k - 1] ==> competition_rank(values, k) == k + 1,
        1 <= competition_rank(values, k) <= k + 1,
{
    lemma_count_bounded(values, k, values[k]);
    if k > 0 && values[k] != values[k - 1] {
        assert forall|j: int| 0 <= j < k implies values[j] > values[k] by {
            if j < k - 1 {
                assert(values[j] >= values[k - 1]);
            }
            assert(values[k - 1] >= values[k]);
        }
        lemma_count_all_greater(values, k, values[k]);
    }
}

/// The ranking order holds each position of the record set once, with the
/// value of the record at that position.
pub proof fn lemma_ranking_order_is_permutation<A: AggregatedPlayerAttribution>(
    records: Seq<AttributionRecord<A>>,
)
    requires
        records.len() <= usize::MAX,
    ensures
        ranking_order(records).len() == records.len(),
        sorted_by(ranking_order(records), key_order()),
        ranking_order(records).to_multiset() == record_keys(records).to_multiset(),
        forall|k: int|
            0 <= k < records.len() ==> {
                let key = #[trigger] ranking_order(records)[k];
                &&& key.1 < records.len()
                &&& key.0 == records[key.1 as int].attribution.value()
            },
        forall|i: int|
            0 <= i < records.len() ==> ranking_order(records).contains(
                #[trigger] record_keys(records)[i],
            ),
{
    broadcast use group_to_multiset_ensures;

    let keys = record_keys(records);
    let order = ranking_order(records);
    keys.lemma_sort_by_ensures(key_order());
    to_multiset_len(order);
    to_multiset_len(keys);
    assert(order.len() == keys.len());
    assert forall|k: int| 0 <= k < records.len() implies {
        let key = #[trigger] order[k];
        &&& key.1 < records.len()
        &&& key.0 == records[key.1 as int].attribution.value()
    } by {
        let key = order[k];
        assert(order.contains(key));
        assert(order.to_multiset().count(key) > 0);
        assert(keys.contains(key));
        let i = choose|i: int| 0 <= i < keys.len() && keys[i] == key;
        assert(key == (records[i].attribution.value(), i as usize));
    }
    assert forall|i: int| 0 <= i < records.len() implies order.contains(#[trigger] keys[i]) by {
        assert(keys.contains(keys[i]));
        assert(keys.to_multiset().count(keys[i]) > 0);
    }
}

/// The values of a ranking are the values of its keys.
pub proof fn lemma_ranking_values<A: AggregatedPlayerAttribution>(
    records: Seq<AttributionRecord<A>>,
)
    requires
        records.len() <= usize::MAX,
    ensures
        ranked_values(ranking_of(records)) == key_values(ranking_order(records)),
        descending(key_values(ranking_order(records))),
{
    lemma_ranking_order_is_permutation(records);
    let order = ranking_order(records);
    assert(ranked_values(ranking_of(records)) =~= key_values(order));
    assert forall|i: int, j: int| 0 <= i < j < key_values(order).len() implies key_values(order)[i]
        >= key_values(order)[j] by {
        assert(key_order()(order[i], order[j]));
    }
}

/// The ranking of a record set is a ranking: it is sorted by descending
/// value and each record has its competition rank.
pub proof fn lemma_ranking_is_ranked<A: AggregatedPlayerAttribution>(
    records: Seq<AttributionRecord<A>>,
)
    requires
        records.len() <= u32::MAX,
    ensures
        is_ranked(ranking_of(records)),
        ranking_of(records).len() == records.len(),
{
    lemma_ranking_values(records);
    let ranked = ranking_of(records);
    let values = ranked_values(ranked);
    assert forall|k: int| 0 <= k < ranked.len() implies (#[trigger] ranked[k]).rank
        == competition_rank(values, k) by {
        lemma_rank_step(values, k);
    }
}

} // verus!

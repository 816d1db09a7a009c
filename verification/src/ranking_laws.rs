//! Laws of rankings: what holds of the ranking of every record set.

use crate::key_sort::{key_order, lemma_key_order_total};
use crate::models::{
    has_player, AggregatedPlayerAttribution, AttributionRecord, RankedAttributionRecord,
};
use crate::ranking_spec::{
    competition_rank, count_greater, count_greater_before, descending, is_ranked, key_values,
    lemma_count_all_greater, lemma_count_bounded, lemma_count_grows, lemma_count_of_same_values,
    lemma_count_stays, lemma_rank_step,
    lemma_ranking_is_ranked, lemma_ranking_order_is_permutation, lemma_ranking_values,
    ranked_records, ranked_values, ranking_of, ranking_order, record_keys,
};
use vstd::prelude::*;
use vstd::relations::*;
use vstd::seq_lib::*;
use vstd::set_lib::*;

verus! {

/// The values of a record set, in the order of the records.
pub open spec fn record_values<A: AggregatedPlayerAttribution>(
    records: Seq<AttributionRecord<A>>,
) -> Seq<u64> {
    Seq::new(records.len(), |i: int| records[i].attribution.value())
}

/// Records of equal value are equal records: the record set has no tie
/// between two records that differ.
pub open spec fn ties_are_equal_records<A: AggregatedPlayerAttribution>(
    records: Seq<AttributionRecord<A>>,
) -> bool {
    forall|i: int, j: int|
        0 <= i < records.len() && 0 <= j < records.len() && records[i].attribution.value()
            == records[j].attribution.value() ==> records[i] == records[j]
}

/// Whether the record set names the player `uuid`.
pub open spec fn names_player<A: AggregatedPlayerAttribution>(
    records: Seq<AttributionRecord<A>>,
    uuid: u128,
) -> bool {
    exists|i: int| 0 <= i < records.len() && (#[trigger] records[i]).player.uuid == uuid
}

/// A ranking is sorted by descending value: no record is followed by one of
/// greater value. Records of equal value stand side by side.
pub proof fn lemma_ranking_descends<A: AggregatedPlayerAttribution>(
    records: Seq<AttributionRecord<A>>,
    i: int,
    j: int,
)
    requires
        records.len() <= u32::MAX,
        0 <= i < j < records.len(),
    ensures
        ranking_of(records)[i].attribution_record.attribution.value() >= ranking_of(
            records,
        )[j].attribution_record.attribution.value(),
{
    lemma_ranking_is_ranked(records);
    let values = ranked_values(ranking_of(records));
    assert(values[i] >= values[j]);
}

/// The first record of a ranking has rank 1. Of two records side by side,
/// equal values share a rank, and a smaller value has as its rank one more
/// than the number of greater values before it, which is its position
/// counted from 1.
pub proof fn lemma_adjacent_ranks<A: AggregatedPlayerAttribution>(
    records: Seq<AttributionRecord<A>>,
    k: int,
)
    requires
        records.len() <= u32::MAX,
        0 <= k < records.len(),
    ensures
        ({
            let ranked = ranking_of(records);
            let values = ranked_values(ranked);
            &&& k == 0 ==> ranked[k].rank == 1
            &&& k > 0 && values[k] == values[k - 1] ==> ranked[k].rank == ranked[k - 1].rank
            &&& k > 0 && values[k] != values[k - 1] ==> {
                &&& values[k] < values[k - 1]
                &&& ranked[k].rank == 1 + count_greater_before(values, k, values[k])
                &&& ranked[k].rank == k + 1
            }
        }),
{
    lemma_ranking_is_ranked(records);
    let ranked = ranking_of(records);
    let values = ranked_values(ranked);
    lemma_rank_step(values, k);
    if k > 0 {
        assert(values[k - 1] >= values[k]);
        assert(ranked[k - 1].rank == competition_rank(values, k - 1));
    }
    assert(ranked[k].rank == competition_rank(values, k));
}

/// In a ranking the ranks go as the values go: two records have the same
/// rank exactly if they have the same value, and the record of greater
/// value has the smaller rank. So from one rank to the next the values
/// descend strictly.
pub proof fn lemma_ranks_go_as_values<A: AggregatedPlayerAttribution>(
    ranked: Seq<RankedAttributionRecord<A>>,
    i: int,
    j: int,
)
    requires
        is_ranked(ranked),
        0 <= i < ranked.len(),
        0 <= j < ranked.len(),
    ensures
        ranked[i].rank == ranked[j].rank <==> ranked[i].attribution_record.attribution.value()
            == ranked[j].attribution_record.attribution.value(),
        ranked[i].rank < ranked[j].rank <==> ranked[i].attribution_record.attribution.value()
            > ranked[j].attribution_record.attribution.value(),
{
    let values = ranked_values(ranked);
    assert(ranked[i].rank == competition_rank(values, i));
    assert(ranked[j].rank == competition_rank(values, j));
    if i < j {
        lemma_ranks_of_ordered_pair(values, i, j);
    } else if j < i {
        lemma_ranks_of_ordered_pair(values, j, i);
    }
}

/// Of two positions of a descending sequence, the later one has the same
/// rank if it has the same value, and a greater rank if its value is
/// smaller.
proof fn lemma_ranks_of_ordered_pair(values: Seq<u64>, i: int, j: int)
    requires
        descending(values),
        0 <= i < j < values.len(),
    ensures
        values[i] >= values[j],
        values[i] == values[j] ==> competition_rank(values, i) == competition_rank(values, j),
        values[i] > values[j] ==> competition_rank(values, i) < competition_rank(values, j),
{
    if values[i] == values[j] {
        assert forall|m: int| i <= m < j implies values[m] <= values[j] by {
            if i < m {
                assert(values[i] >= values[m]);
            }
        }
        lemma_count_stays(values, i, j, values[j]);
    } else {
        assert forall|m: int| 0 <= m < i + 1 implies values[m] > values[j] by {
            if m < i {
                assert(values[m] >= values[i]);
            }
        }
        lemma_count_all_greater(values, i + 1, values[j]);
        lemma_count_grows(values, i + 1, j, values[j]);
        lemma_count_bounded(values, i, values[i]);
    }
}

/// The rank of a record is one more than the number of records of the
/// record set that have a strictly greater value.
pub proof fn lemma_rank_counts_greater_records<A: AggregatedPlayerAttribution>(
    records: Seq<AttributionRecord<A>>,
    k: int,
)
    requires
        records.len() <= u32::MAX,
        0 <= k < records.len(),
    ensures
        ranking_of(records)[k].rank == 1 + count_greater(
            record_values(records),
            ranking_of(records)[k].attribution_record.attribution.value(),
        ),
{
    lemma_ranking_is_ranked(records);
    lemma_ranking_holds_the_values(records);
    let ranked = ranking_of(records);
    let values = ranked_values(ranked);
    let x = values[k];
    assert(ranked[k].rank == competition_rank(values, k));
    assert forall|m: int| k <= m < values.len() implies values[m] <= x by {
        if k < m {
            assert(values[k] >= values[m]);
        }
    }
    lemma_count_stays(values, k, values.len() as int, x);
    lemma_count_of_same_values(values, record_values(records), x);
}

/// Two sequences that hold the same items as often as each other still do
/// so after one function has been applied to every item.
pub proof fn lemma_map_keeps_multiset<T, U>(x: Seq<T>, y: Seq<T>, f: spec_fn(T) -> U)
    requires
        x.to_multiset() == y.to_multiset(),
    ensures
        x.map_values(f).to_multiset() == y.map_values(f).to_multiset(),
    decreases x.len(),
{
    broadcast use group_to_multiset_ensures;

    to_multiset_len(x);
    to_multiset_len(y);
    if x.len() == 0 {
        assert(x.map_values(f) =~= y.map_values(f));
    } else {
        let a = x.last();
        let rest_x = x.drop_last();
        assert(x =~= rest_x.push(a));
        assert(x.contains(a));
        assert(y.to_multiset().count(a) > 0);
        assert(y.contains(a));
        let j = choose|j: int| 0 <= j < y.len() && y[j] == a;
        let rest_y = y.remove(j);
        assert(rest_x =~= x.remove(x.len() - 1));
        to_multiset_remove(x, x.len() - 1);
        to_multiset_remove(y, j);
        assert(rest_x.to_multiset() == rest_y.to_multiset());
        lemma_map_keeps_multiset(rest_x, rest_y, f);
        assert(x.map_values(f) =~= rest_x.map_values(f).push(f(a)));
        assert(y.map_values(f) =~= rest_y.map_values(f).insert(j, f(a)));
        to_multiset_build(rest_x.map_values(f), f(a));
        to_multiset_insert(rest_y.map_values(f), j, f(a));
    }
}

/// A ranking holds exactly the records of its record set, each as often as
/// the record set holds it.
pub proof fn lemma_ranking_holds_the_record_set<A: AggregatedPlayerAttribution>(
    records: Seq<AttributionRecord<A>>,
)
    requires
        records.len() <= u32::MAX,
    ensures
        ranking_of(records).len() == records.len(),
        ranked_records(ranking_of(records)).to_multiset() == records.to_multiset(),
{
    lemma_ranking_order_is_permutation(records);
    let keys = record_keys(records);
    let order = ranking_order(records);
    let pick = |key: (u64, usize)| records[key.1 as int];
    lemma_map_keeps_multiset(order, keys, pick);
    assert(order.map_values(pick) =~= ranked_records(ranking_of(records)));
    assert(keys.map_values(pick) =~= records);
}

/// The values of a ranking are the values of the record set, each as often.
proof fn lemma_ranking_holds_the_values<A: AggregatedPlayerAttribution>(
    records: Seq<AttributionRecord<A>>,
)
    requires
        records.len() <= u32::MAX,
    ensures
        ranked_values(ranking_of(records)).to_multiset() == record_values(records).to_multiset(),
{
    lemma_ranking_holds_the_record_set(records);
    let value_of = |record: AttributionRecord<A>| record.attribution.value();
    let kept = ranked_records(ranking_of(records));
    lemma_map_keeps_multiset(kept, records, value_of);
    assert(kept.map_values(value_of) =~= ranked_values(ranking_of(records)));
    assert(records.map_values(value_of) =~= record_values(records));
}

/// In whatever order a record set is handed over, its ranking shows the
/// same values with the same ranks at the same positions. Only records of
/// equal value may change places with each other.
pub proof fn lemma_order_of_records_keeps_ranks_and_values<A: AggregatedPlayerAttribution>(
    a: Seq<AttributionRecord<A>>,
    b: Seq<AttributionRecord<A>>,
)
    requires
        a.len() <= u32::MAX,
        a.to_multiset() == b.to_multiset(),
    ensures
        ranking_of(a).len() == ranking_of(b).len(),
        ranked_values(ranking_of(a)) == ranked_values(ranking_of(b)),
        forall|k: int|
            0 <= k < a.len() ==> (#[trigger] ranking_of(a)[k]).rank == ranking_of(b)[k].rank,
{
    to_multiset_len(a);
    to_multiset_len(b);
    let value_of = |record: AttributionRecord<A>| record.attribution.value();
    lemma_map_keeps_multiset(a, b, value_of);
    assert(a.map_values(value_of) =~= record_values(a));
    assert(b.map_values(value_of) =~= record_values(b));
    lemma_ranking_holds_the_values(a);
    lemma_ranking_holds_the_values(b);
    lemma_ranking_values(a);
    lemma_ranking_values(b);
    let values_a = ranked_values(ranking_of(a));
    let values_b = ranked_values(ranking_of(b));
    let at_least = |x: u64, y: u64| x >= y;
    assert(total_ordering(at_least)) by {
        assert(reflexive(at_least));
        assert(antisymmetric(at_least));
        assert(transitive(at_least));
        assert(strongly_connected(at_least));
    }
    assert(sorted_by(values_a, at_least));
    assert(sorted_by(values_b, at_least));
    lemma_sorted_unique(values_a, values_b, at_least);
}

/// Two sequences of records that descend by value and hold the same records
/// as often as each other are the same sequence, if no two records that
/// differ have the same value.
proof fn lemma_descending_records_unique<A: AggregatedPlayerAttribution>(
    x: Seq<AttributionRecord<A>>,
    y: Seq<AttributionRecord<A>>,
)
    requires
        x.to_multiset() == y.to_multiset(),
        descending(record_values(x)),
        descending(record_values(y)),
        ties_are_equal_records(x),
    ensures
        x == y,
    decreases x.len(),
{
    broadcast use group_to_multiset_ensures;

    to_multiset_len(x);
    to_multiset_len(y);
    if x.len() == 0 {
        assert(x =~= y);
    } else {
        let n = x.len() as int;
        let last_x = x.last();
        let last_y = y.last();
        assert(x.contains(last_x));
        assert(y.to_multiset().count(last_x) > 0);
        assert(y.contains(last_x));
        let j = choose|j: int| 0 <= j < y.len() && y[j] == last_x;
        assert(y.contains(last_y));
        assert(x.to_multiset().count(last_y) > 0);
        assert(x.contains(last_y));
        let i = choose|i: int| 0 <= i < x.len() && x[i] == last_y;
        assert(record_values(y)[j] >= record_values(y)[n - 1] || j == n - 1);
        assert(record_values(x)[i] >= record_values(x)[n - 1] || i == n - 1);
        assert(last_x.attribution.value() == last_y.attribution.value());
        assert(x[i] == x[n - 1]);
        assert(last_x == last_y);
        let rest_x = x.drop_last();
        let rest_y = y.drop_last();
        assert(rest_x =~= x.remove(n - 1));
        assert(rest_y =~= y.remove(n - 1));
        to_multiset_remove(x, n - 1);
        to_multiset_remove(y, n - 1);
        assert(descending(record_values(rest_x))) by {
            assert forall|p: int, q: int| 0 <= p < q < rest_x.len() implies record_values(
                rest_x,
            )[p] >= record_values(rest_x)[q] by {
                assert(record_values(x)[p] >= record_values(x)[q]);
            }
        }
        assert(descending(record_values(rest_y))) by {
            assert forall|p: int, q: int| 0 <= p < q < rest_y.len() implies record_values(
                rest_y,
            )[p] >= record_values(rest_y)[q] by {
                assert(record_values(y)[p] >= record_values(y)[q]);
            }
        }
        assert(ties_are_equal_records(rest_x)) by {
            assert forall|p: int, q: int|
                0 <= p < rest_x.len() && 0 <= q < rest_x.len()
                    && rest_x[p].attribution.value() == rest_x[q].attribution.value() implies rest_x[p]
                == rest_x[q] by {
                assert(x[p] == x[q]);
            }
        }
        lemma_descending_records_unique(rest_x, rest_y);
        assert(x =~= rest_x.push(last_x));
        assert(y =~= rest_y.push(last_y));
    }
}

/// Rebuilding from the same record set gives the same ranking, in whatever
/// order the records are handed over, as long as records of equal value are
/// equal records. (Two different records of equal value stand in the
/// ranking in the reverse of the order in which they were handed over.)
pub proof fn lemma_order_of_records_keeps_ranking<A: AggregatedPlayerAttribution>(
    a: Seq<AttributionRecord<A>>,
    b: Seq<AttributionRecord<A>>,
)
    requires
        a.len() <= u32::MAX,
        a.to_multiset() == b.to_multiset(),
        ties_are_equal_records(a),
    ensures
        ranking_of(a) == ranking_of(b),
{
    to_multiset_len(a);
    to_multiset_len(b);
    lemma_order_of_records_keeps_ranks_and_values(a, b);
    lemma_ranking_holds_the_record_set(a);
    lemma_ranking_holds_the_record_set(b);
    lemma_ranking_is_ranked(a);
    lemma_ranking_is_ranked(b);
    lemma_ranking_order_is_permutation(a);
    let x = ranked_records(ranking_of(a));
    let y = ranked_records(ranking_of(b));
    assert(record_values(x) =~= ranked_values(ranking_of(a)));
    assert(record_values(y) =~= ranked_values(ranking_of(b)));
    assert(ties_are_equal_records(x)) by {
        assert forall|p: int, q: int|
            0 <= p < x.len() && 0 <= q < x.len() && x[p].attribution.value()
                == x[q].attribution.value() implies x[p] == x[q] by {
            let kp = ranking_order(a)[p];
            let kq = ranking_order(a)[q];
            assert(x[p] == a[kp.1 as int]);
            assert(x[q] == a[kq.1 as int]);
        }
    }
    lemma_descending_records_unique(x, y);
    assert forall|k: int| 0 <= k < a.len() implies ranking_of(a)[k] == ranking_of(b)[k] by {
        assert(x[k] == y[k]);
        assert(ranking_of(a)[k].attribution_record == x[k]);
        assert(ranking_of(b)[k].attribution_record == y[k]);
    }
    assert(ranking_of(a) =~= ranking_of(b));
}

/// `b` holds the records of `a` in another order, and records of equal
/// value have kept their order: `to[i]` is the position in `b` of the record
/// at position `i` of `a`, no two records go to one position, and of two
/// records of equal value the one that comes first in `a` comes first in `b`.
pub open spec fn keeps_ties_in_order<A: AggregatedPlayerAttribution>(
    a: Seq<AttributionRecord<A>>,
    b: Seq<AttributionRecord<A>>,
    to: Seq<int>,
) -> bool {
    &&& b.len() == a.len()
    &&& to.len() == a.len()
    &&& forall|i: int| 0 <= i < a.len() ==> 0 <= #[trigger] to[i] < b.len() && b[to[i]] == a[i]
    &&& forall|i: int, j: int| 0 <= i < j < a.len() ==> #[trigger] to[i] != #[trigger] to[j]
    &&& forall|i: int, j: int|
        0 <= i < j < a.len() && a[i].attribution.value() == a[j].attribution.value()
            ==> #[trigger] to[i] < #[trigger] to[j]
}

/// Two sequences of equal length without repetitions, of which the second
/// holds every item of the first, hold the same items.
proof fn lemma_distinct_items_same_multiset<T>(x: Seq<T>, y: Seq<T>)
    requires
        x.no_duplicates(),
        y.no_duplicates(),
        x.len() == y.len(),
        forall|i: int| 0 <= i < x.len() ==> y.contains(#[trigger] x[i]),
    ensures
        x.to_multiset() == y.to_multiset(),
{
    broadcast use group_to_multiset_ensures;

    x.unique_seq_to_set();
    y.unique_seq_to_set();
    seq_to_set_is_finite(x);
    seq_to_set_is_finite(y);
    assert(x.to_set().subset_of(y.to_set())) by {
        assert forall|item: T| x.to_set().contains(item) implies y.to_set().contains(item) by {
            let i = choose|i: int| 0 <= i < x.len() && x[i] == item;
            assert(y.contains(x[i]));
        }
    }
    lemma_subset_equality(x.to_set(), y.to_set());
    x.lemma_multiset_has_no_duplicates();
    y.lemma_multiset_has_no_duplicates();
    assert forall|item: T| x.to_multiset().count(item) == y.to_multiset().count(item) by {
        assert(x.contains(item) == x.to_set().contains(item));
        assert(y.contains(item) == y.to_set().contains(item));
        assert(x.to_multiset().contains(item) == (x.to_multiset().count(item) > 0));
        assert(y.to_multiset().contains(item) == (y.to_multiset().count(item) > 0));
    }
    assert(x.to_multiset() =~= y.to_multiset());
}

/// Rebuilding from the same record set gives the same ranking whenever
/// records of equal value are handed over in the same order. Where two
/// different records of equal value change places, so do they in the
/// ranking, and in no other case do two rankings of one record set differ.
pub proof fn lemma_reordering_keeps_ranking<A: AggregatedPlayerAttribution>(
    a: Seq<AttributionRecord<A>>,
    b: Seq<AttributionRecord<A>>,
    to: Seq<int>,
)
    requires
        a.len() <= u32::MAX,
        keeps_ties_in_order(a, b, to),
    ensures
        ranking_of(a) == ranking_of(b),
{
    broadcast use group_to_multiset_ensures;

    lemma_ranking_order_is_permutation(a);
    lemma_ranking_order_is_permutation(b);
    let keys_a = record_keys(a);
    let keys_b = record_keys(b);
    let order_a = ranking_order(a);
    let order_b = ranking_order(b);
    let moved = |key: (u64, usize)| (key.0, to[key.1 as int] as usize);
    let moved_order = order_a.map_values(moved);
    let moved_keys = keys_a.map_values(moved);
    lemma_map_keeps_multiset(order_a, keys_a, moved);
    assert forall|i: int| 0 <= i < moved_keys.len() implies #[trigger] moved_keys[i]
        == keys_b[to[i]] by {
        assert(0 <= to[i] < b.len() && b[to[i]] == a[i]);
    }
    assert(moved_keys.no_duplicates()) by {
        assert forall|i: int, j: int|
            0 <= i < moved_keys.len() && 0 <= j < moved_keys.len() && i != j implies moved_keys[i]
            != moved_keys[j] by {
            assert(0 <= to[i] < b.len());
            assert(0 <= to[j] < b.len());
            if i < j {
                assert(to[i] != to[j]);
            } else {
                assert(to[j] != to[i]);
            }
        }
    }
    assert(keys_b.no_duplicates());
    assert forall|i: int| 0 <= i < moved_keys.len() implies keys_b.contains(
        #[trigger] moved_keys[i],
    ) by {
        assert(0 <= to[i] < b.len());
        assert(keys_b[to[i]] == moved_keys[i]);
    }
    lemma_distinct_items_same_multiset(moved_keys, keys_b);
    assert(sorted_by(moved_order, key_order())) by {
        assert forall|k: int, l: int| 0 <= k < l < moved_order.len() implies #[trigger] key_order()(
            moved_order[k],
            moved_order[l],
        ) by {
            let first = order_a[k];
            let second = order_a[l];
            assert(key_order()(first, second));
            assert(0 <= to[first.1 as int] < b.len());
            assert(0 <= to[second.1 as int] < b.len());
            if first.0 == second.0 && first.1 != second.1 {
                assert(to[second.1 as int] < to[first.1 as int]);
            }
        }
    }
    lemma_key_order_total();
    lemma_sorted_unique(moved_order, order_b, key_order());
    assert(key_values(order_a) =~= key_values(order_b));
    assert forall|k: int| 0 <= k < a.len() implies ranking_of(a)[k] == ranking_of(b)[k] by {
        let key = order_a[k];
        assert(order_b[k] == moved_order[k]);
        assert(0 <= to[key.1 as int] < b.len() && b[to[key.1 as int]] == a[key.1 as int]);
    }
    assert(ranking_of(a) =~= ranking_of(b));
}

/// A ranking holds a record of a player exactly if the record set names
/// that player.
pub proof fn lemma_ranking_has_the_players_of_the_record_set<A: AggregatedPlayerAttribution>(
    records: Seq<AttributionRecord<A>>,
    uuid: u128,
)
    requires
        records.len() <= u32::MAX,
    ensures
        has_player(ranking_of(records), uuid) <==> names_player(records, uuid),
{
    lemma_ranking_order_is_permutation(records);
    let ranked = ranking_of(records);
    let order = ranking_order(records);
    if has_player(ranked, uuid) {
        let k = choose|k: int|
            0 <= k < ranked.len() && (#[trigger] ranked[k]).attribution_record.player.uuid == uuid;
        let key = order[k];
        assert(records[key.1 as int].player.uuid == uuid);
    }
    if names_player(records, uuid) {
        let i = choose|i: int| 0 <= i < records.len() && (#[trigger] records[i]).player.uuid == uuid;
        let key = record_keys(records)[i];
        assert(order.contains(key));
        let k = choose|k: int| 0 <= k < order.len() && order[k] == key;
        assert(ranked[k].attribution_record == records[i]);
    }
}

} // verus!

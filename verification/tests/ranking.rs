use seichi_ranking::models::{
    AggregatedPlayerAttribution, AttributionRecord, BreakCount, BuildCount, Player, PlayTicks,
    RankedAttributionRecord, Ranking, VoteCount,
};

const A: u128 = 0x0000_0000_0000_0000_0000_0000_0000_000a;
const B: u128 = 0x0000_0000_0000_0000_0000_0000_0000_000b;
const C: u128 = 0x0000_0000_0000_0000_0000_0000_0000_000c;
const D: u128 = 0x0000_0000_0000_0000_0000_0000_0000_000d;

fn record(uuid: u128, name: &str, value: u64) -> AttributionRecord<BreakCount> {
    AttributionRecord {
        player: Player {
            uuid,
            name: name.to_string(),
            last_quit_secs: 1_600_000_000,
            last_quit_nanos: 0,
        },
        attribution: BreakCount(value),
    }
}

fn ranking_of(records: Vec<AttributionRecord<BreakCount>>) -> Ranking<BreakCount> {
    let mut ranking = Ranking::default();
    ranking.hydrate_record_set(records);
    ranking
}

fn summary<T: AggregatedPlayerAttribution>(
    records: &[RankedAttributionRecord<T>],
) -> Vec<(u128, u32, u64)> {
    records
        .iter()
        .map(|r| {
            (
                r.attribution_record.player.uuid,
                r.rank,
                r.attribution_record.attribution.raw_u64_data(),
            )
        })
        .collect()
}

fn all_of(ranking: &Ranking<BreakCount>) -> Vec<(u128, u32, u64)> {
    summary(&ranking.paginate(0, ranking.len()).0)
}

#[test]
fn tied_records_share_a_rank_and_the_next_rank_is_skipped() {
    let ranking = ranking_of(vec![record(A, "a", 100), record(B, "b", 100), record(C, "c", 50)]);
    let ranks: Vec<(u128, u32)> = {
        let mut v: Vec<(u128, u32)> = all_of(&ranking).iter().map(|r| (r.0, r.1)).collect();
        v.sort();
        v
    };
    assert_eq!(ranks, vec![(A, 1), (B, 1), (C, 3)]);
    assert_eq!(ranking.record_with_uuid(A).unwrap().rank, 1);
    assert_eq!(ranking.record_with_uuid(B).unwrap().rank, 1);
    assert_eq!(ranking.record_with_uuid(C).unwrap().rank, 3);
}

#[test]
fn among_equal_values_the_later_record_comes_first() {
    let ranking = ranking_of(vec![record(A, "a", 100), record(B, "b", 100), record(C, "c", 50)]);
    assert_eq!(all_of(&ranking), vec![(B, 1, 100), (A, 1, 100), (C, 3, 50)]);
}

#[test]
fn single_record_has_rank_one() {
    let ranking = ranking_of(vec![record(A, "a", 10)]);
    assert_eq!(all_of(&ranking), vec![(A, 1, 10)]);
    assert!(ranking.paginate(1, 10).0.is_empty());
    let found = ranking.record_with_uuid(A).unwrap();
    assert_eq!(found.rank, 1);
    assert_eq!(found.attribution_record.player.name, "a");
    assert_eq!(found.attribution_record.attribution, BreakCount(10));
    assert!(ranking.record_with_uuid(B).is_none());
}

#[test]
fn empty_record_set_gives_an_empty_ranking() {
    let ranking = ranking_of(vec![]);
    assert_eq!(ranking.len(), 0);
    assert!(ranking.paginate(0, 0).0.is_empty());
    assert!(ranking.paginate(0, 20).0.is_empty());
    assert!(ranking.paginate(5, 20).0.is_empty());
    assert!(ranking.paginate(usize::MAX, usize::MAX).0.is_empty());
    assert!(ranking.record_with_uuid(A).is_none());
    assert!(ranking.record_with_uuid(0).is_none());
}

#[test]
fn default_ranking_is_empty() {
    let ranking: Ranking<VoteCount> = Ranking::default();
    assert_eq!(ranking.len(), 0);
    assert!(ranking.paginate(0, 1000).0.is_empty());
    assert!(ranking.record_with_uuid(A).is_none());
}

#[test]
fn all_equal_values_share_rank_one() {
    let ranking = ranking_of(vec![record(A, "a", 7), record(B, "b", 7), record(C, "c", 7)]);
    assert_eq!(all_of(&ranking), vec![(C, 1, 7), (B, 1, 7), (A, 1, 7)]);
}

#[test]
fn ranks_follow_the_competition_scheme() {
    let values = [30u64, 50, 10, 50, 20, 20];
    let records = values
        .iter()
        .enumerate()
        .map(|(i, v)| record(i as u128 + 1, "p", *v))
        .collect();
    let ranking = ranking_of(records);
    assert_eq!(
        all_of(&ranking),
        vec![(4, 1, 50), (2, 1, 50), (1, 3, 30), (6, 4, 20), (5, 4, 20), (3, 6, 10)]
    );
}

#[test]
fn ranking_is_sorted_by_descending_value() {
    let values = [5u64, 900, 17, 17, 0, u64::MAX, 42, 900, 3, 1];
    let records = values
        .iter()
        .enumerate()
        .map(|(i, v)| record(i as u128, "p", *v))
        .collect();
    let ranking = ranking_of(records);
    let all = all_of(&ranking);
    assert_eq!(all.len(), values.len());
    for pair in all.windows(2) {
        assert!(pair[0].2 >= pair[1].2);
    }
    assert_eq!(all[0], (5, 1, u64::MAX));
    assert_eq!(all[9], (4, 10, 0));
}

#[test]
fn adjacent_pairs_obey_the_rank_rule() {
    let values = [8u64, 8, 3, 9, 3, 3, 1, 9, 2];
    let records = values
        .iter()
        .enumerate()
        .map(|(i, v)| record(i as u128, "p", *v))
        .collect();
    let all = all_of(&ranking_of(records));
    assert_eq!(all[0].1, 1);
    for i in 1..all.len() {
        if all[i].2 == all[i - 1].2 {
            assert_eq!(all[i].1, all[i - 1].1);
        } else {
            let greater = all[..i].iter().filter(|r| r.2 > all[i].2).count();
            assert_eq!(all[i].1 as usize, 1 + greater);
            assert_eq!(all[i].1 as usize, i + 1);
        }
    }
}

#[test]
fn rebuilding_with_the_same_records_gives_the_same_ranking() {
    let records = || vec![record(A, "a", 3), record(B, "b", 9), record(C, "c", 3), record(D, "d", 1)];
    let mut ranking = ranking_of(records());
    let first = all_of(&ranking);
    ranking.hydrate_record_set(records());
    assert_eq!(all_of(&ranking), first);
    assert_eq!(first, vec![(B, 1, 9), (C, 2, 3), (A, 2, 3), (D, 4, 1)]);
}

#[test]
fn input_order_does_not_matter_without_ties() {
    let one = ranking_of(vec![record(A, "a", 3), record(B, "b", 9), record(C, "c", 5)]);
    let other = ranking_of(vec![record(C, "c", 5), record(A, "a", 3), record(B, "b", 9)]);
    assert_eq!(all_of(&one), all_of(&other));
    assert_eq!(all_of(&one), vec![(B, 1, 9), (C, 2, 5), (A, 3, 3)]);
}

#[test]
fn input_order_never_changes_ranks_and_values() {
    let one = ranking_of(vec![record(A, "a", 3), record(B, "b", 9), record(C, "c", 3)]);
    let other = ranking_of(vec![record(C, "c", 3), record(B, "b", 9), record(A, "a", 3)]);
    let strip = |r: &Ranking<BreakCount>| -> Vec<(u32, u64)> {
        all_of(r).iter().map(|x| (x.1, x.2)).collect()
    };
    assert_eq!(strip(&one), strip(&other));
    assert_eq!(strip(&one), vec![(1, 9), (2, 3), (2, 3)]);
}

#[test]
fn rebuild_replaces_everything() {
    let mut ranking = ranking_of(vec![record(A, "a", 3), record(B, "b", 9)]);
    ranking.hydrate_record_set(vec![record(C, "c", 4)]);
    assert_eq!(all_of(&ranking), vec![(C, 1, 4)]);
    assert!(ranking.record_with_uuid(A).is_none());
    assert!(ranking.record_with_uuid(B).is_none());
    ranking.hydrate_record_set(vec![]);
    assert_eq!(ranking.len(), 0);
}

#[test]
fn from_record_set_agrees_with_hydrate() {
    let built = Ranking::from_record_set(vec![record(A, "a", 1), record(B, "b", 2)]);
    assert_eq!(all_of(&built), vec![(B, 1, 2), (A, 2, 1)]);
}

#[test]
fn paginate_whole_ranking() {
    let ranking = ranking_of(vec![record(A, "a", 30), record(B, "b", 20), record(C, "c", 10)]);
    assert_eq!(summary(&ranking.paginate(0, 3).0), vec![(A, 1, 30), (B, 2, 20), (C, 3, 10)]);
    assert_eq!(summary(&ranking.paginate(0, 1000).0), all_of(&ranking));
}

#[test]
fn paginate_inner_page() {
    let ranking = ranking_of(vec![
        record(A, "a", 40),
        record(B, "b", 30),
        record(C, "c", 20),
        record(D, "d", 10),
    ]);
    assert_eq!(summary(&ranking.paginate(1, 2).0), vec![(B, 2, 30), (C, 3, 20)]);
    assert_eq!(summary(&ranking.paginate(3, 1).0), vec![(D, 4, 10)]);
    assert!(ranking.paginate(2, 0).0.is_empty());
}

#[test]
fn paginate_cuts_a_page_off_at_the_end() {
    let ranking = ranking_of(vec![record(A, "a", 30), record(B, "b", 20), record(C, "c", 10)]);
    assert_eq!(summary(&ranking.paginate(2, 5).0), vec![(C, 3, 10)]);
    assert_eq!(summary(&ranking.paginate(1, usize::MAX).0), vec![(B, 2, 20), (C, 3, 10)]);
}

#[test]
fn paginate_past_the_end_is_empty() {
    let ranking = ranking_of(vec![record(A, "a", 30), record(B, "b", 20), record(C, "c", 10)]);
    assert!(ranking.paginate(3, 1).0.is_empty());
    assert!(ranking.paginate(4, 10).0.is_empty());
    assert!(ranking.paginate(usize::MAX, 1).0.is_empty());
    assert!(ranking.paginate(usize::MAX, usize::MAX).0.is_empty());
}

#[test]
fn lookup_finds_exactly_the_players_of_the_record_set() {
    let ranking = ranking_of(vec![record(A, "a", 30), record(B, "b", 20), record(C, "c", 20)]);
    for (uuid, rank, value) in [(A, 1, 30), (B, 2, 20), (C, 2, 20)] {
        let found = ranking.record_with_uuid(uuid).unwrap();
        assert_eq!(found.rank, rank);
        assert_eq!(found.attribution_record.player.uuid, uuid);
        assert_eq!(found.attribution_record.attribution, BreakCount(value));
    }
    assert!(ranking.record_with_uuid(D).is_none());
}

#[test]
fn lookup_returns_the_whole_record() {
    let ranking = ranking_of(vec![AttributionRecord {
        player: Player {
            uuid: A,
            name: "Steve".to_string(),
            last_quit_secs: 1_650_000_123,
            last_quit_nanos: 456,
        },
        attribution: BreakCount(77),
    }]);
    let found = ranking.record_with_uuid(A).unwrap();
    assert_eq!(found.attribution_record.player.name, "Steve");
    assert_eq!(found.attribution_record.player.last_quit_secs, 1_650_000_123);
    assert_eq!(found.attribution_record.player.last_quit_nanos, 456);
}

#[test]
fn a_player_named_twice_is_ranked_twice_and_found_at_the_better_rank() {
    let ranking = ranking_of(vec![record(A, "a", 5), record(B, "b", 7), record(A, "a", 9)]);
    assert_eq!(all_of(&ranking), vec![(A, 1, 9), (B, 2, 7), (A, 3, 5)]);
    let found = ranking.record_with_uuid(A).unwrap();
    assert_eq!(found.rank, 1);
    assert_eq!(found.attribution_record.attribution, BreakCount(9));
}

#[test]
fn every_kind_of_attribution_gives_its_number() {
    assert_eq!(BreakCount(1).raw_u64_data(), 1);
    assert_eq!(BuildCount(2).raw_u64_data(), 2);
    assert_eq!(PlayTicks(3).raw_u64_data(), 3);
    assert_eq!(VoteCount(u64::MAX).raw_u64_data(), u64::MAX);
}

#[test]
fn large_record_set_is_ranked() {
    let n: u64 = 5000;
    let records = (0..n).map(|i| record(i as u128, "p", (i * 7919) % 1000)).collect();
    let ranking = ranking_of(records);
    let all = all_of(&ranking);
    assert_eq!(all.len(), n as usize);
    for i in 1..all.len() {
        assert!(all[i - 1].2 >= all[i].2);
        if all[i - 1].2 == all[i].2 {
            assert_eq!(all[i - 1].1, all[i].1);
            assert!(all[i - 1].0 > all[i].0);
        } else {
            assert_eq!(all[i].1 as usize, i + 1);
        }
    }
}

#[test]
fn rank_is_one_more_than_the_number_of_greater_records() {
    let values = [12u64, 7, 12, 3, 7, 7, 100, 0];
    let records: Vec<AttributionRecord<BreakCount>> = values
        .iter()
        .enumerate()
        .map(|(i, v)| record(i as u128, "p", *v))
        .collect();
    let ranking = ranking_of(records);
    for (i, v) in values.iter().enumerate() {
        let greater = values.iter().filter(|w| *w > v).count() as u32;
        assert_eq!(ranking.record_with_uuid(i as u128).unwrap().rank, greater + 1);
    }
}

#[test]
fn ranks_go_as_values_go() {
    let values = [4u64, 4, 9, 1, 9, 2, 2, 2];
    let records = values
        .iter()
        .enumerate()
        .map(|(i, v)| record(i as u128, "p", *v))
        .collect();
    let all = all_of(&ranking_of(records));
    for x in &all {
        for y in &all {
            assert_eq!(x.1 == y.1, x.2 == y.2);
            assert_eq!(x.1 < y.1, x.2 > y.2);
        }
    }
}

#[test]
fn reordering_that_keeps_ties_in_order_keeps_the_ranking() {
    let one = ranking_of(vec![
        record(A, "a", 5),
        record(B, "b", 8),
        record(C, "c", 5),
        record(D, "d", 1),
    ]);
    let other = ranking_of(vec![
        record(D, "d", 1),
        record(A, "a", 5),
        record(C, "c", 5),
        record(B, "b", 8),
    ]);
    assert_eq!(all_of(&one), all_of(&other));
    assert_eq!(all_of(&one), vec![(B, 1, 8), (C, 2, 5), (A, 2, 5), (D, 4, 1)]);
    let swapped = ranking_of(vec![
        record(C, "c", 5),
        record(B, "b", 8),
        record(A, "a", 5),
        record(D, "d", 1),
    ]);
    assert_eq!(all_of(&swapped), vec![(B, 1, 8), (A, 2, 5), (C, 2, 5), (D, 4, 1)]);
}

#[test]
fn every_read_between_rebuilds_sees_a_whole_ranking() {
    let mut ranking: Ranking<BreakCount> = Ranking::default();
    for round in 0u64..20 {
        let n = (round * 13) % 17;
        let records = (0..n).map(|i| record(i as u128, "p", (i * 31 + round) % 5)).collect();
        ranking.hydrate_record_set(records);
        let all = all_of(&ranking);
        assert_eq!(all.len() as u64, n);
        assert_eq!(ranking.len() as u64, n);
        for (i, r) in all.iter().enumerate() {
            let greater = all.iter().filter(|o| o.2 > r.2).count();
            assert_eq!(r.1 as usize, greater + 1);
            if i > 0 {
                assert!(all[i - 1].2 >= r.2);
            }
            assert_eq!(ranking.record_with_uuid(r.0).unwrap().rank, r.1);
        }
    }
}

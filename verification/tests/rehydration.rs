use seichi_ranking::app_models::{
    first_step, install_snapshot, next_step, snapshot_of, AppState, FetchOutcome,
    LockedRankingsForTimeRanges, RehydrationStep, SLEEP_SECS,
};
use seichi_ranking::models::{
    AggregatedPlayerAttribution, AggregationTimeRange, AttributionKind, AttributionRecord,
    BreakCount, BuildCount, Player, Ranking,
};

const RANGES: [AggregationTimeRange; 5] = [
    AggregationTimeRange::All,
    AggregationTimeRange::LastOneYear,
    AggregationTimeRange::LastOneMonth,
    AggregationTimeRange::LastOneWeek,
    AggregationTimeRange::LastOneDay,
];

fn player(uuid: u128) -> Player {
    Player { uuid, name: format!("p{uuid}"), last_quit_secs: 0, last_quit_nanos: 0 }
}

fn breaks(items: &[(u128, u64)]) -> Vec<AttributionRecord<BreakCount>> {
    items
        .iter()
        .map(|(u, v)| AttributionRecord { player: player(*u), attribution: BreakCount(*v) })
        .collect()
}

fn builds(items: &[(u128, u64)]) -> Vec<AttributionRecord<BuildCount>> {
    items
        .iter()
        .map(|(u, v)| AttributionRecord { player: player(*u), attribution: BuildCount(*v) })
        .collect()
}

fn seen<T: AggregatedPlayerAttribution>(
    rankings: &LockedRankingsForTimeRanges<T>,
    time_range: AggregationTimeRange,
) -> Vec<(u128, u32, u64)> {
    let ranking = rankings.for_time_range(time_range).read_blocking();
    ranking
        .paginate(0, usize::MAX)
        .0
        .iter()
        .map(|r| {
            (
                r.attribution_record.player.uuid,
                r.rank,
                r.attribution_record.attribution.raw_u64_data(),
            )
        })
        .collect()
}

fn refresh<T: AggregatedPlayerAttribution>(
    rankings: &LockedRankingsForTimeRanges<T>,
    time_range: AggregationTimeRange,
    outcome: FetchOutcome<T>,
) -> bool {
    let snapshot = snapshot_of(outcome);
    let mut ranking = rankings.for_time_range(time_range).write_blocking();
    install_snapshot(&mut ranking, snapshot)
}

#[test]
fn store_starts_with_empty_rankings() {
    let state = AppState::default();
    for range in RANGES {
        assert!(seen(&state.break_count_rankings, range).is_empty());
        assert!(seen(&state.build_count_rankings, range).is_empty());
        assert!(seen(&state.play_ticks_rankings, range).is_empty());
        assert!(seen(&state.vote_count_rankings, range).is_empty());
    }
}

#[test]
fn each_time_range_has_a_lock_of_its_own() {
    let rankings: LockedRankingsForTimeRanges<BreakCount> = LockedRankingsForTimeRanges::default();
    let expected = [
        &rankings.all,
        &rankings.last_one_year,
        &rankings.last_one_month,
        &rankings.last_one_week,
        &rankings.last_one_day,
    ];
    for (range, lock) in RANGES.iter().zip(expected) {
        assert!(std::ptr::eq(rankings.for_time_range(*range), lock));
    }
    let held = rankings.for_time_range(AggregationTimeRange::All).write_blocking();
    for range in &RANGES[1..] {
        assert!(rankings.for_time_range(*range).try_write().is_some());
    }
    assert!(rankings.for_time_range(AggregationTimeRange::All).try_read().is_none());
    drop(held);
    assert!(rankings.for_time_range(AggregationTimeRange::All).try_read().is_some());
}

#[test]
fn failed_fetch_keeps_the_snapshot_and_touches_nothing_else() {
    let state = AppState::default();
    for range in RANGES {
        assert!(refresh(
            &state.break_count_rankings,
            range,
            FetchOutcome::Fetched(breaks(&[(1, 10), (2, 20)]))
        ));
        assert!(refresh(
            &state.build_count_rankings,
            range,
            FetchOutcome::Fetched(builds(&[(1, 5)]))
        ));
    }
    let old_breaks = vec![(2, 1, 20), (1, 2, 10)];
    for range in RANGES {
        assert!(!refresh(&state.break_count_rankings, range, FetchOutcome::Failed));
        assert!(refresh(
            &state.build_count_rankings,
            range,
            FetchOutcome::Fetched(builds(&[(1, 5), (3, 7), (4, 7)]))
        ));
    }
    for range in RANGES {
        assert_eq!(seen(&state.break_count_rankings, range), old_breaks);
        assert_eq!(seen(&state.build_count_rankings, range), vec![(4, 1, 7), (3, 1, 7), (1, 3, 5)]);
        assert!(seen(&state.play_ticks_rankings, range).is_empty());
        assert!(seen(&state.vote_count_rankings, range).is_empty());
    }
}

#[test]
fn refreshing_one_time_range_leaves_the_others() {
    let state = AppState::default();
    assert!(refresh(
        &state.break_count_rankings,
        AggregationTimeRange::LastOneWeek,
        FetchOutcome::Fetched(breaks(&[(9, 1)]))
    ));
    for range in RANGES {
        let expected =
            if range == AggregationTimeRange::LastOneWeek { vec![(9, 1, 1)] } else { vec![] };
        assert_eq!(seen(&state.break_count_rankings, range), expected);
    }
}

#[test]
fn snapshot_of_a_fetch() {
    let snapshot = snapshot_of(FetchOutcome::Fetched(breaks(&[(1, 1), (2, 2)]))).unwrap();
    assert_eq!(snapshot.len(), 2);
    assert_eq!(snapshot.record_with_uuid(2).unwrap().rank, 1);
    assert!(snapshot_of::<BreakCount>(FetchOutcome::Failed).is_none());
    let empty = snapshot_of::<BreakCount>(FetchOutcome::Fetched(vec![])).unwrap();
    assert_eq!(empty.len(), 0);
}

#[test]
fn install_snapshot_swaps_or_keeps() {
    let mut ranking = Ranking::from_record_set(breaks(&[(1, 1)]));
    assert!(!install_snapshot(&mut ranking, None));
    assert_eq!(ranking.len(), 1);
    assert!(ranking.record_with_uuid(1).is_some());
    let next = Ranking::from_record_set(breaks(&[(2, 2), (3, 3)]));
    assert!(install_snapshot(&mut ranking, Some(next)));
    assert_eq!(ranking.len(), 2);
    assert!(ranking.record_with_uuid(1).is_none());
    assert_eq!(ranking.record_with_uuid(3).unwrap().rank, 1);
}

#[test]
fn a_pass_visits_every_ranking_once_and_then_sleeps() {
    let kinds = [
        AttributionKind::Break,
        AttributionKind::Build,
        AttributionKind::PlayTicks,
        AttributionKind::Vote,
    ];
    let mut step = first_step();
    for kind in kinds {
        for range in RANGES {
            assert_eq!(step, RehydrationStep::Fetch(kind, range));
            step = next_step(step);
        }
    }
    assert_eq!(step, RehydrationStep::Sleep);
    assert_eq!(next_step(step), first_step());
    assert_eq!(SLEEP_SECS, 120);
}

//! The store of all rankings, each behind a lock of its own, and the
//! decisions of the loop that refreshes them.

use crate::models::{
    AggregatedPlayerAttribution, AggregationTimeRange, AttributionKind, AttributionRecord,
    BreakCount, BuildCount, PlayTicks, Ranking, VoteCount,
};
use crate::ranking_spec::ranking_of;
use async_lock::RwLock;
use vstd::prelude::*;

verus! {

/// The reader-writer lock of `async_lock`. Nothing is known of what a lock
/// holds at a given moment: it is only carried and handed out.
#[verifier::external_type_specification]
#[verifier::external_body]
#[verifier::reject_recursive_types(T)]
pub struct ExRwLock<T: ?Sized>(async_lock::RwLock<T>);

/// `async_lock::RwLock::new` makes a lock around a value. Nothing is claimed
/// of the lock that comes back.
pub assume_specification<T>[ async_lock::RwLock::<T>::new ](t: T) -> (lock: async_lock::RwLock<T>);

/// One ranking per time range, each behind its own lock, so that refreshing
/// one ranking never keeps readers of another waiting.
#[verifier::reject_recursive_types(Attribution)]
pub struct LockedRankingsForTimeRanges<Attribution: AggregatedPlayerAttribution> {
    pub all: RwLock<Ranking<Attribution>>,
    pub last_one_year: RwLock<Ranking<Attribution>>,
    pub last_one_month: RwLock<Ranking<Attribution>>,
    pub last_one_week: RwLock<Ranking<Attribution>>,
    pub last_one_day: RwLock<Ranking<Attribution>>,
}

impl<Attribution: AggregatedPlayerAttribution> Default for LockedRankingsForTimeRanges<
    Attribution,
> {
    /// Five locks, each around an empty ranking.
    fn default() -> (r: Self) {
        LockedRankingsForTimeRanges {
            all: RwLock::new(Ranking::default()),
            last_one_year: RwLock::new(Ranking::default()),
            last_one_month: RwLock::new(Ranking::default()),
            last_one_week: RwLock::new(Ranking::default()),
            last_one_day: RwLock::new(Ranking::default()),
        }
    }
}

impl<Attribution: AggregatedPlayerAttribution> LockedRankingsForTimeRanges<Attribution> {
    /// The lock that belongs to a time range.
    pub open spec fn lock_of(&self, time_range: AggregationTimeRange) -> RwLock<
        Ranking<Attribution>,
    > {
        match time_range {
            AggregationTimeRange::All => self.all,
            AggregationTimeRange::LastOneYear => self.last_one_year,
            AggregationTimeRange::LastOneMonth => self.last_one_month,
            AggregationTimeRange::LastOneWeek => self.last_one_week,
            AggregationTimeRange::LastOneDay => self.last_one_day,
        }
    }

    /// Hands out the lock of the ranking for `time_range`. Every time range
    /// has one.
    pub fn for_time_range(&self, time_range: AggregationTimeRange) -> (lock: &RwLock<
        Ranking<Attribution>,
    >)
        ensures
            *lock == self.lock_of(time_range),
    {
        match time_range {
            AggregationTimeRange::All => &self.all,
            AggregationTimeRange::LastOneYear => &self.last_one_year,
            AggregationTimeRange::LastOneMonth => &self.last_one_month,
            AggregationTimeRange::LastOneWeek => &self.last_one_week,
            AggregationTimeRange::LastOneDay => &self.last_one_day,
        }
    }
}

/// All rankings of the service: one set of time ranges per kind of
/// attribution.
pub struct AppState {
    pub break_count_rankings: LockedRankingsForTimeRanges<BreakCount>,
    pub build_count_rankings: LockedRankingsForTimeRanges<BuildCount>,
    pub play_ticks_rankings: LockedRankingsForTimeRanges<PlayTicks>,
    pub vote_count_rankings: LockedRankingsForTimeRanges<VoteCount>,
}

impl Default for AppState {
    /// The store at start: every ranking is empty.
    fn default() -> (r: Self) {
        AppState {
            break_count_rankings: LockedRankingsForTimeRanges::default(),
            build_count_rankings: LockedRankingsForTimeRanges::default(),
            play_ticks_rankings: LockedRankingsForTimeRanges::default(),
            vote_count_rankings: LockedRankingsForTimeRanges::default(),
        }
    }
}

/// What a provider gave when it was asked for a record set.
pub enum FetchOutcome<Attribution: AggregatedPlayerAttribution> {
    /// The complete record set of one kind and one time range.
    Fetched(Vec<AttributionRecord<Attribution>>),
    /// The provider could not give the record set.
    Failed,
}

/// What the refreshing loop does next.
#[derive(Clone, Copy, Debug, PartialEq, Eq, Structural)]
pub enum RehydrationStep {
    /// Ask the provider of this kind for the record set of this time range
    /// and replace that ranking.
    Fetch(AttributionKind, AggregationTimeRange),
    /// Every ranking has had its turn: rest before the next pass.
    Sleep,
}

/// How long the loop rests between two passes, in seconds.
pub const SLEEP_SECS: u64 = 120;

/// How many rankings one pass refreshes.
pub const RANKINGS_PER_PASS: u64 = 20;

/// The place of a kind in a pass.
pub open spec fn kind_position(kind: AttributionKind) -> nat {
    match kind {
        AttributionKind::Break => 0,
        AttributionKind::Build => 1,
        AttributionKind::PlayTicks => 2,
        AttributionKind::Vote => 3,
    }
}

/// The place of a time range among the time ranges of one kind.
pub open spec fn time_range_position(time_range: AggregationTimeRange) -> nat {
    match time_range {
        AggregationTimeRange::All => 0,
        AggregationTimeRange::LastOneYear => 1,
        AggregationTimeRange::LastOneMonth => 2,
        AggregationTimeRange::LastOneWeek => 3,
        AggregationTimeRange::LastOneDay => 4,
    }
}

/// The place of a ranking in a pass: kind by kind, and within a kind time
/// range by time range.
pub open spec fn pass_position(kind: AttributionKind, time_range: AggregationTimeRange) -> nat {
    kind_position(kind) * 5 + time_range_position(time_range)
}

/// The step that follows `step`.
pub open spec fn step_after(step: RehydrationStep) -> RehydrationStep {
    match step {
        RehydrationStep::Sleep => RehydrationStep::Fetch(
            AttributionKind::Break,
            AggregationTimeRange::All,
        ),
        RehydrationStep::Fetch(kind, AggregationTimeRange::All) => RehydrationStep::Fetch(
            kind,
            AggregationTimeRange::LastOneYear,
        ),
        RehydrationStep::Fetch(kind, AggregationTimeRange::LastOneYear) => RehydrationStep::Fetch(
            kind,
            AggregationTimeRange::LastOneMonth,
        ),
        RehydrationStep::Fetch(kind, AggregationTimeRange::LastOneMonth) => RehydrationStep::Fetch(
            kind,
            AggregationTimeRange::LastOneWeek,
        ),
        RehydrationStep::Fetch(kind, AggregationTimeRange::LastOneWeek) => RehydrationStep::Fetch(
            kind,
            AggregationTimeRange::LastOneDay,
        ),
        RehydrationStep::Fetch(AttributionKind::Break, AggregationTimeRange::LastOneDay) => {
            RehydrationStep::Fetch(AttributionKind::Build, AggregationTimeRange::All)
        },
        RehydrationStep::Fetch(AttributionKind::Build, AggregationTimeRange::LastOneDay) => {
            RehydrationStep::Fetch(AttributionKind::PlayTicks, AggregationTimeRange::All)
        },
        RehydrationStep::Fetch(AttributionKind::PlayTicks, AggregationTimeRange::LastOneDay) => {
            RehydrationStep::Fetch(AttributionKind::Vote, AggregationTimeRange::All)
        },
        RehydrationStep::Fetch(AttributionKind::Vote, AggregationTimeRange::LastOneDay) => {
            RehydrationStep::Sleep
        },
    }
}

/// The step that the loop has reached `count` steps after the start of a
/// pass.
pub open spec fn step_at(count: nat) -> RehydrationStep
    decreases count,
{
    if count == 0 {
        RehydrationStep::Fetch(AttributionKind::Break, AggregationTimeRange::All)
    } else {
        step_after(step_at((count - 1) as nat))
    }
}

/// The step with which every pass begins.
pub fn first_step() -> (step: RehydrationStep)
    ensures
        step == step_at(0),
        step == RehydrationStep::Fetch(AttributionKind::Break, AggregationTimeRange::All),
{
    RehydrationStep::Fetch(AttributionKind::Break, AggregationTimeRange::All)
}

fn next_time_range(time_range: AggregationTimeRange) -> (next: Option<AggregationTimeRange>)
    ensures
        next == match time_range {
            AggregationTimeRange::All => Some(AggregationTimeRange::LastOneYear),
            AggregationTimeRange::LastOneYear => Some(AggregationTimeRange::LastOneMonth),
            AggregationTimeRange::LastOneMonth => Some(AggregationTimeRange::LastOneWeek),
            AggregationTimeRange::LastOneWeek => Some(AggregationTimeRange::LastOneDay),
            AggregationTimeRange::LastOneDay => None::<AggregationTimeRange>,
        },
{
    match time_range {
        AggregationTimeRange::All => Some(AggregationTimeRange::LastOneYear),
        AggregationTimeRange::LastOneYear => Some(AggregationTimeRange::LastOneMonth),
        AggregationTimeRange::LastOneMonth => Some(AggregationTimeRange::LastOneWeek),
        AggregationTimeRange::LastOneWeek => Some(AggregationTimeRange::LastOneDay),
        AggregationTimeRange::LastOneDay => None,
    }
}

fn next_kind(kind: AttributionKind) -> (next: Option<AttributionKind>)
    ensures
        next == match kind {
            AttributionKind::Break => Some(AttributionKind::Build),
            AttributionKind::Build => Some(AttributionKind::PlayTicks),
            AttributionKind::PlayTicks => Some(AttributionKind::Vote),
            AttributionKind::Vote => None::<AttributionKind>,
        },
{
    match kind {
        AttributionKind::Break => Some(AttributionKind::Build),
        AttributionKind::Build => Some(AttributionKind::PlayTicks),
        AttributionKind::PlayTicks => Some(AttributionKind::Vote),
        AttributionKind::Vote => None,
    }
}

/// The step that follows `step`: the next time range of the same kind, then
/// the first time range of the next kind, then the rest, and after the rest
/// the first ranking again. The loop has no last step.
pub fn next_step(step: RehydrationStep) -> (next: RehydrationStep)
    ensures
        next == step_after(step),
{
    match step {
        RehydrationStep::Sleep => first_step(),
        RehydrationStep::Fetch(kind, time_range) => match next_time_range(time_range) {
            Some(later) => RehydrationStep::Fetch(kind, later),
            None => match next_kind(kind) {
                Some(other) => RehydrationStep::Fetch(other, AggregationTimeRange::All),
                None => RehydrationStep::Sleep,
            },
        },
    }
}

/// A pass leaves no ranking out and takes none twice: the ranking of each
/// kind and time range has its turn at its own place among the first twenty
/// steps, the rest follows as the step after those, and then the pass
/// begins again.
pub proof fn lemma_pass_is_exhaustive(kind: AttributionKind, time_range: AggregationTimeRange)
    ensures
        pass_position(kind, time_range) < RANKINGS_PER_PASS,
        step_at(pass_position(kind, time_range)) == RehydrationStep::Fetch(kind, time_range),
        step_at(RANKINGS_PER_PASS as nat) == RehydrationStep::Sleep,
        step_after(RehydrationStep::Sleep) == step_at(0),
{
    reveal_with_fuel(step_at, 22);
}

/// Two different rankings have different places in a pass.
pub proof fn lemma_pass_positions_differ(
    kind: AttributionKind,
    time_range: AggregationTimeRange,
    other_kind: AttributionKind,
    other_time_range: AggregationTimeRange,
)
    requires
        pass_position(kind, time_range) == pass_position(other_kind, other_time_range),
    ensures
        kind == other_kind,
        time_range == other_time_range,
{
}

/// The ranking to put in place of the old one after a fetch, built before
/// any lock is taken. There is none if the provider failed, or if it gave
/// more records than the ranks can number.
pub fn snapshot_of<Attribution: AggregatedPlayerAttribution>(
    outcome: FetchOutcome<Attribution>,
) -> (snapshot: Option<Ranking<Attribution>>)
    ensures
        match outcome {
            FetchOutcome::Fetched(records) => if records@.len() <= u32::MAX {
                snapshot.is_some() && snapshot.unwrap()@ == ranking_of(records@)
            } else {
                snapshot.is_none()
            },
            FetchOutcome::Failed => snapshot.is_none(),
        },
{
    match outcome {
        FetchOutcome::Fetched(records) => {
            if records.len() <= 0xffff_ffff {
                Some(Ranking::from_record_set(records))
            } else {
                None
            }
        },
        FetchOutcome::Failed => None,
    }
}

/// Puts a new snapshot in the place of a ranking, as a whole. Without a new
/// snapshot the ranking stays as it was.
pub fn install_snapshot<Attribution: AggregatedPlayerAttribution>(
    ranking: &mut Ranking<Attribution>,
    snapshot: Option<Ranking<Attribution>>,
) -> (replaced: bool)
    ensures
        replaced == snapshot.is_some(),
        snapshot.is_some() ==> final(ranking)@ == snapshot.unwrap()@,
        snapshot.is_none() ==> final(ranking)@ == old(ranking)@,
{
    match snapshot {
        Some(rebuilt) => {
            *ranking = rebuilt;
            true
        },
        None => false,
    }
}

} // verus!

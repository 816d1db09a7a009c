//! Players, attribution records and the ranking built from them.

use crate::key_sort::sort_keys;
use crate::ranking_spec::{
    competition_rank, descending, is_ranked, key_values, lemma_rank_step, lemma_ranking_is_ranked,
    lemma_ranking_order_is_permutation, lemma_ranking_values, ranking_of, ranking_order,
    record_keys,
};
use crate::text::same_text;
use vstd::prelude::*;

verus! {

/// A player: a stable identity, a display name, and the moment the player was
/// last seen. Only the identity takes part in ranking queries.
#[derive(Debug)]
pub struct Player {
    /// The 128 bits of the player's UUID.
    pub uuid: u128,
    pub name: String,
    /// When the player last quit: whole seconds since the Unix epoch.
    pub last_quit_secs: i64,
    /// The nanoseconds that go with `last_quit_secs`.
    pub last_quit_nanos: u32,
}

impl Clone for Player {
    fn clone(&self) -> (r: Self)
        ensures
            r == *self,
    {
        Player {
            uuid: self.uuid,
            name: self.name.clone(),
            last_quit_secs: self.last_quit_secs,
            last_quit_nanos: self.last_quit_nanos,
        }
    }
}

/// A numeric fact about a player by which players can be ranked. Values of
/// one kind are compared by the number they hold.
pub trait AggregatedPlayerAttribution: Ord + Copy {
    /// The number this attribution stands for.
    spec fn value(&self) -> u64;

    fn raw_u64_data(&self) -> (r: u64)
        ensures
            r == self.value(),
    ;
}

/// How many blocks a player broke.
#[derive(Clone, Copy, Debug, PartialEq, Eq, PartialOrd, Ord)]
pub struct BreakCount(pub u64);

/// How many blocks a player placed.
#[derive(Clone, Copy, Debug, PartialEq, Eq, PartialOrd, Ord)]
pub struct BuildCount(pub u64);

/// How many ticks a player has played.
#[derive(Clone, Copy, Debug, PartialEq, Eq, PartialOrd, Ord)]
pub struct PlayTicks(pub u64);

/// How many votes a player has cast.
#[derive(Clone, Copy, Debug, PartialEq, Eq, PartialOrd, Ord)]
pub struct VoteCount(pub u64);

impl AggregatedPlayerAttribution for BreakCount {
    open spec fn value(&self) -> u64 {
        self.0
    }

    fn raw_u64_data(&self) -> (r: u64) {
        self.0
    }
}

impl AggregatedPlayerAttribution for BuildCount {
    open spec fn value(&self) -> u64 {
        self.0
    }

    fn raw_u64_data(&self) -> (r: u64) {
        self.0
    }
}

impl AggregatedPlayerAttribution for PlayTicks {
    open spec fn value(&self) -> u64 {
        self.0
    }

    fn raw_u64_data(&self) -> (r: u64) {
        self.0
    }
}

impl AggregatedPlayerAttribution for VoteCount {
    open spec fn value(&self) -> u64 {
        self.0
    }

    fn raw_u64_data(&self) -> (r: u64) {
        self.0
    }
}

/// One player's value for one kind of attribution.
#[derive(Debug)]
pub struct AttributionRecord<Attribution: AggregatedPlayerAttribution> {
    pub player: Player,
    pub attribution: Attribution,
}

impl<Attribution: AggregatedPlayerAttribution> Clone for AttributionRecord<Attribution> {
    fn clone(&self) -> (r: Self)
        ensures
            r == *self,
    {
        AttributionRecord { player: self.player.clone(), attribution: self.attribution }
    }
}

/// A record together with its rank, counted from 1.
#[derive(Debug)]
pub struct RankedAttributionRecord<Attribution: AggregatedPlayerAttribution> {
    pub rank: u32,
    pub attribution_record: AttributionRecord<Attribution>,
}

impl<Attribution: AggregatedPlayerAttribution> Clone for RankedAttributionRecord<Attribution> {
    fn clone(&self) -> (r: Self)
        ensures
            r == *self,
    {
        RankedAttributionRecord {
            rank: self.rank,
            attribution_record: self.attribution_record.clone(),
        }
    }
}

/// The window of time over which an attribution is summed up.
#[derive(Clone, Copy, Debug, PartialEq, Eq, Structural)]
pub enum AggregationTimeRange {
    All,
    LastOneYear,
    LastOneMonth,
    LastOneWeek,
    LastOneDay,
}

/// Why a text names no variant.
#[derive(Clone, Copy, Debug, PartialEq, Eq, Structural)]
pub enum ParseError {
    VariantNotFound,
}

/// The time range that a specifier names: `all`, `year`, `month`, `week` or
/// `day`, in exactly this spelling.
pub open spec fn time_range_named(text: Seq<char>) -> Option<AggregationTimeRange> {
    if text == "all"@ {
        Some(AggregationTimeRange::All)
    } else if text == "year"@ {
        Some(AggregationTimeRange::LastOneYear)
    } else if text == "month"@ {
        Some(AggregationTimeRange::LastOneMonth)
    } else if text == "week"@ {
        Some(AggregationTimeRange::LastOneWeek)
    } else if text == "day"@ {
        Some(AggregationTimeRange::LastOneDay)
    } else {
        None
    }
}

impl AggregationTimeRange {
    /// Reads a time range from its specifier.
    pub fn from_str(text: &str) -> (r: Result<AggregationTimeRange, ParseError>)
        ensures
            r == match time_range_named(text@) {
                Some(time_range) => Ok::<AggregationTimeRange, ParseError>(time_range),
                None => Err::<AggregationTimeRange, ParseError>(ParseError::VariantNotFound),
            },
    {
        if same_text(text, "all") {
            Ok(AggregationTimeRange::All)
        } else if same_text(text, "year") {
            Ok(AggregationTimeRange::LastOneYear)
        } else if same_text(text, "month") {
            Ok(AggregationTimeRange::LastOneMonth)
        } else if same_text(text, "week") {
            Ok(AggregationTimeRange::LastOneWeek)
        } else if same_text(text, "day") {
            Ok(AggregationTimeRange::LastOneDay)
        } else {
            Err(ParseError::VariantNotFound)
        }
    }

    /// The specifier that names this time range.
    pub fn specifier(&self) -> (text: &'static str)
        ensures
            time_range_named(text@) == Some(*self),
    {
        proof {
            reveal_strlit("all");
            reveal_strlit("year");
            reveal_strlit("month");
            reveal_strlit("week");
            reveal_strlit("day");
            assert("all"@.len() == 3 && "all"@[0] == 'a');
            assert("year"@.len() == 4 && "year"@[0] == 'y');
            assert("month"@.len() == 5);
            assert("week"@.len() == 4 && "week"@[0] == 'w');
            assert("day"@.len() == 3 && "day"@[0] == 'd');
        }
        match self {
            AggregationTimeRange::All => "all",
            AggregationTimeRange::LastOneYear => "year",
            AggregationTimeRange::LastOneMonth => "month",
            AggregationTimeRange::LastOneWeek => "week",
            AggregationTimeRange::LastOneDay => "day",
        }
    }
}

/// The kinds of attribution that are ranked.
#[derive(Clone, Copy, Debug, PartialEq, Eq, Structural)]
pub enum AttributionKind {
    Break,
    Build,
    PlayTicks,
    Vote,
}

/// The ranking of one record set: its records by descending value, each with
/// its rank. Equal values share a rank; the next smaller value has as its
/// rank its position counted from 1. A ranking is replaced as a whole, so
/// every ranking that can be observed is complete.
pub struct Ranking<Attribution: AggregatedPlayerAttribution> {
    sorted_ranked_records: Vec<RankedAttributionRecord<Attribution>>,
}

/// One page of a ranking.
pub struct RankingSlice<Attribution: AggregatedPlayerAttribution>(
    pub Vec<RankedAttributionRecord<Attribution>>,
);

impl<Attribution: AggregatedPlayerAttribution> View for Ranking<Attribution> {
    type V = Seq<RankedAttributionRecord<Attribution>>;

    /// The ranked records, first rank first.
    closed spec fn view(&self) -> Self::V {
        self.sorted_ranked_records@
    }
}

impl<Attribution: AggregatedPlayerAttribution> Default for Ranking<Attribution> {
    /// The ranking of no records.
    fn default() -> (r: Self)
        ensures
            r@ == Seq::<RankedAttributionRecord<Attribution>>::empty(),
    {
        Ranking { sorted_ranked_records: Vec::new() }
    }
}

/// The position at which a page that was asked for at `offset` begins in a
/// ranking of `len` records.
pub open spec fn page_start(len: int, offset: int) -> int {
    if offset < len {
        offset
    } else {
        len
    }
}

/// The position before which a page of at most `limit` records ends.
pub open spec fn page_end(len: int, offset: int, limit: int) -> int {
    if offset + limit < len {
        offset + limit
    } else {
        len
    }
}

/// Whether a ranking holds a record of the player `uuid`.
pub open spec fn has_player<Attribution: AggregatedPlayerAttribution>(
    ranked: Seq<RankedAttributionRecord<Attribution>>,
    uuid: u128,
) -> bool {
    exists|k: int|
        0 <= k < ranked.len() && (#[trigger] ranked[k]).attribution_record.player.uuid == uuid
}

/// Whether position `k` is the first in the ranking that holds a record of
/// the player `uuid`.
pub open spec fn is_first_of_player<Attribution: AggregatedPlayerAttribution>(
    ranked: Seq<RankedAttributionRecord<Attribution>>,
    uuid: u128,
    k: int,
) -> bool {
    &&& 0 <= k < ranked.len()
    &&& ranked[k].attribution_record.player.uuid == uuid
    &&& forall|j: int| 0 <= j < k ==> (#[trigger] ranked[j]).attribution_record.player.uuid != uuid
}

impl<Attribution: AggregatedPlayerAttribution> Ranking<Attribution> {
    #[verifier::type_invariant]
    spec fn well_formed(&self) -> bool {
        is_ranked(self.sorted_ranked_records@)
    }

    /// Ranks a record set. The order of `records` matters only among records
    /// of equal value: of those, the one that comes later in `records` comes
    /// first in the ranking. A player that occurs twice is ranked twice.
    pub fn from_record_set(records: Vec<AttributionRecord<Attribution>>) -> (r: Self)
        requires
            records@.len() <= u32::MAX,
        ensures
            r@ == ranking_of(records@),
    {
        let n = records.len();
        let mut keys: Vec<(u64, usize)> = Vec::new();
        let mut i: usize = 0;
        while i < n
            invariant
                n == records@.len(),
                i <= n,
                keys@ == record_keys(records@).take(i as int),
            decreases n - i,
        {
            keys.push((records[i].attribution.raw_u64_data(), i));
            i = i + 1;
            proof {
                assert(keys@ =~= record_keys(records@).take(i as int));
            }
        }
        proof {
            assert(keys@ =~= record_keys(records@));
        }
        let order = sort_keys(&keys);
        proof {
            lemma_ranking_order_is_permutation(records@);
            lemma_ranking_values(records@);
            lemma_ranking_is_ranked(records@);
        }
        let ghost values = key_values(order@);
        let mut ranked: Vec<RankedAttributionRecord<Attribution>> = Vec::new();
        let mut previous_value: u64 = 0;
        let mut previous_rank: u32 = 0;
        let mut k: usize = 0;
        while k < n
            invariant
                n == records@.len(),
                n <= u32::MAX,
                k <= n,
                order@ == ranking_order(records@),
                order@.len() == n,
                values == key_values(order@),
                ranked@ == ranking_of(records@).take(k as int),
                k > 0 ==> previous_value == values[k - 1] && previous_rank
                    == competition_rank(values, k - 1),
                forall|m: int|
                    0 <= m < n ==> {
                        let key = #[trigger] ranking_order(records@)[m];
                        &&& key.1 < n
                        &&& key.0 == records@[key.1 as int].attribution.value()
                    },
                descending(values),
            decreases n - k,
        {
            let key = order[k];
            proof {
                assert(key == ranking_order(records@)[k as int]);
                lemma_rank_step(values, k as int);
                assert(values[k as int] == key.0);
            }
            let rank: u32 = if k > 0 && key.0 == previous_value {
                previous_rank
            } else {
                (k + 1) as u32
            };
            let record = records[key.1].clone();
            ranked.push(RankedAttributionRecord { rank, attribution_record: record });
            previous_value = key.0;
            previous_rank = rank;
            k = k + 1;
            proof {
                assert(ranked@ =~= ranking_of(records@).take(k as int));
            }
        }
        proof {
            assert(ranked@ =~= ranking_of(records@));
        }
        Ranking { sorted_ranked_records: ranked }
    }

    /// Replaces the whole ranking by the ranking of `records`. Nothing of the
    /// ranking that was there before stays.
    pub fn hydrate_record_set(&mut self, records: Vec<AttributionRecord<Attribution>>)
        requires
            records@.len() <= u32::MAX,
        ensures
            final(self)@ == ranking_of(records@),
    {
        let rebuilt = Self::from_record_set(records);
        *self = rebuilt;
    }

    /// How many records the ranking holds. Whatever ranking is read, it is
    /// sorted by descending value and holds the competition rank of each
    /// record.
    pub fn len(&self) -> (n: usize)
        ensures
            n == self@.len(),
            is_ranked(self@),
    {
        proof {
            use_type_invariant(self);
        }
        self.sorted_ranked_records.len()
    }

    /// The page of at most `limit` records that begins at position `offset`,
    /// counted from 0. A page that reaches past the end of the ranking is cut
    /// off there, and one that begins at or past the end is empty: no pair of
    /// `offset` and `limit` is refused.
    pub fn paginate(&self, offset: usize, limit: usize) -> (page: RankingSlice<Attribution>)
        ensures
            page.0@ == self@.subrange(
                page_start(self@.len() as int, offset as int),
                page_end(self@.len() as int, offset as int, limit as int),
            ),
            offset >= self@.len() ==> page.0@.len() == 0,
            offset == 0 && limit >= self@.len() ==> page.0@ == self@,
            is_ranked(self@),
    {
        proof {
            use_type_invariant(self);
        }
        let n = self.sorted_ranked_records.len();
        let start: usize = if offset < n {
            offset
        } else {
            n
        };
        let end: usize = if limit < n - start {
            start + limit
        } else {
            n
        };
        let mut out: Vec<RankedAttributionRecord<Attribution>> = Vec::new();
        let mut k: usize = start;
        while k < end
            invariant
                start <= k <= end <= n,
                n == self.sorted_ranked_records@.len(),
                out@ == self.sorted_ranked_records@.subrange(start as int, k as int),
            decreases end - k,
        {
            out.push(self.sorted_ranked_records[k].clone());
            k = k + 1;
            proof {
                assert(out@ =~= self.sorted_ranked_records@.subrange(start as int, k as int));
            }
        }
        proof {
            if offset == 0 && limit >= n {
                assert(self@.subrange(0, n as int) =~= self@);
            }
        }
        RankingSlice(out)
    }

    /// The ranked record of the player `uuid`, if the ranking holds one: the
    /// first in ranking order, should the record set have named the player
    /// more than once.
    pub fn record_with_uuid(&self, uuid: u128) -> (found: Option<
        RankedAttributionRecord<Attribution>,
    >)
        ensures
            found.is_some() <==> has_player(self@, uuid),
            found.is_some() ==> exists|k: int|
                is_first_of_player(self@, uuid, k) && found == Some(#[trigger] self@[k]),
            is_ranked(self@),
    {
        proof {
            use_type_invariant(self);
        }
        let n = self.sorted_ranked_records.len();
        let mut k: usize = 0;
        while k < n
            invariant
                k <= n,
                n == self.sorted_ranked_records@.len(),
                is_ranked(self@),
                forall|j: int|
                    0 <= j < k ==> (#[trigger] self@[j]).attribution_record.player.uuid != uuid,
            decreases n - k,
        {
            if self.sorted_ranked_records[k].attribution_record.player.uuid == uuid {
                let found = self.sorted_ranked_records[k].clone();
                proof {
                    assert(is_first_of_player(self@, uuid, k as int));
                    assert(found == self@[k as int]);
                }
                return Some(found);
            }
            k = k + 1;
        }
        None
    }
}

} // verus!

//! Ranked records as they are shown to a client.

use crate::models::{AggregatedPlayerAttribution, Player, RankedAttributionRecord, RankingSlice};
use vstd::prelude::*;

verus! {

/// A rank and the value that earned it.
#[derive(Clone, Copy, Debug, PartialEq, Eq, Structural)]
pub struct RankingRecord {
    pub rank_position: u32,
    pub value: u64,
}

/// A player with the player's rank and value.
#[derive(Debug)]
pub struct PlayerRankingRecord {
    pub player: Player,
    pub record: RankingRecord,
}

/// What is shown of a ranked record: its rank and the number of its
/// attribution.
pub open spec fn shown_record<Attribution: AggregatedPlayerAttribution>(
    ranked_record: RankedAttributionRecord<Attribution>,
) -> RankingRecord {
    RankingRecord {
        rank_position: ranked_record.rank,
        value: ranked_record.attribution_record.attribution.value(),
    }
}

/// What is shown of a ranked record together with its player.
pub open spec fn shown_player_record<Attribution: AggregatedPlayerAttribution>(
    ranked_record: RankedAttributionRecord<Attribution>,
) -> PlayerRankingRecord {
    PlayerRankingRecord {
        player: ranked_record.attribution_record.player,
        record: shown_record(ranked_record),
    }
}

pub fn ranked_record_to_presentation_ranking_record<Attribution: AggregatedPlayerAttribution>(
    ranked_record: &RankedAttributionRecord<Attribution>,
) -> (shown: RankingRecord)
    ensures
        shown == shown_record(*ranked_record),
{
    RankingRecord {
        rank_position: ranked_record.rank,
        value: ranked_record.attribution_record.attribution.raw_u64_data(),
    }
}

pub fn ranked_record_to_presentation_player_ranking_record<
    Attribution: AggregatedPlayerAttribution,
>(ranked_record: &RankedAttributionRecord<Attribution>) -> (shown: PlayerRankingRecord)
    ensures
        shown == shown_player_record(*ranked_record),
{
    PlayerRankingRecord {
        player: ranked_record.attribution_record.player.clone(),
        record: ranked_record_to_presentation_ranking_record(ranked_record),
    }
}

/// What is shown of a page: each of its records with its player, in the
/// order of the page.
pub fn page_to_presentation<Attribution: AggregatedPlayerAttribution>(
    page: &RankingSlice<Attribution>,
) -> (shown: Vec<PlayerRankingRecord>)
    ensures
        shown@.len() == page.0@.len(),
        forall|k: int| 0 <= k < page.0@.len() ==> shown@[k] == shown_player_record(page.0@[k]),
{
    let n = page.0.len();
    let mut shown: Vec<PlayerRankingRecord> = Vec::new();
    let mut k: usize = 0;
    while k < n
        invariant
            k <= n,
            n == page.0@.len(),
            shown@.len() == k,
            forall|j: int| 0 <= j < k ==> shown@[j] == shown_player_record(page.0@[j]),
        decreases n - k,
    {
        shown.push(ranked_record_to_presentation_player_ranking_record(&page.0[k]));
        k = k + 1;
    }
    shown
}

} // verus!

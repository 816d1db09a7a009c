//! The names under which rankings are asked for by type and by time range.

use crate::models::ParseError;
use crate::text::same_text;
use vstd::prelude::*;

verus! {

/// The rankings by what they count.
#[derive(Clone, Copy, Debug, PartialEq, Eq, Structural)]
pub enum RankingType {
    Break,
    Build,
    PlayTime,
    Vote,
}

/// The rankings by the time they cover.
#[derive(Clone, Copy, Debug, PartialEq, Eq, Structural)]
pub enum RankingAggregationTimeRange {
    All,
    LastOneYear,
    LastOneMonth,
    LastOneWeek,
    LastOneDay,
}

/// The ranking type that a text names: the variant's name in lower case,
/// its words joined by underscores.
pub open spec fn ranking_type_named(text: Seq<char>) -> Option<RankingType> {
    if text == "break"@ {
        Some(RankingType::Break)
    } else if text == "build"@ {
        Some(RankingType::Build)
    } else if text == "play_time"@ {
        Some(RankingType::PlayTime)
    } else if text == "vote"@ {
        Some(RankingType::Vote)
    } else {
        None
    }
}

/// The time range that a text names: the variant's name in lower case, its
/// words joined by underscores.
pub open spec fn ranking_time_range_named(text: Seq<char>) -> Option<RankingAggregationTimeRange> {
    if text == "all"@ {
        Some(RankingAggregationTimeRange::All)
    } else if text == "last_one_year"@ {
        Some(RankingAggregationTimeRange::LastOneYear)
    } else if text == "last_one_month"@ {
        Some(RankingAggregationTimeRange::LastOneMonth)
    } else if text == "last_one_week"@ {
        Some(RankingAggregationTimeRange::LastOneWeek)
    } else if text == "last_one_day"@ {
        Some(RankingAggregationTimeRange::LastOneDay)
    } else {
        None
    }
}

impl RankingType {
    /// Reads a ranking type from its name.
    pub fn from_str(text: &str) -> (r: Result<RankingType, ParseError>)
        ensures
            r == match ranking_type_named(text@) {
                Some(ranking_type) => Ok::<RankingType, ParseError>(ranking_type),
                None => Err::<RankingType, ParseError>(ParseError::VariantNotFound),
            },
    {
        if same_text(text, "break") {
            Ok(RankingType::Break)
        } else if same_text(text, "build") {
            Ok(RankingType::Build)
        } else if same_text(text, "play_time") {
            Ok(RankingType::PlayTime)
        } else if same_text(text, "vote") {
            Ok(RankingType::Vote)
        } else {
            Err(ParseError::VariantNotFound)
        }
    }
}

impl RankingAggregationTimeRange {
    /// Reads a time range from its name.
    pub fn from_str(text: &str) -> (r: Result<RankingAggregationTimeRange, ParseError>)
        ensures
            r == match ranking_time_range_named(text@) {
                Some(time_range) => Ok::<RankingAggregationTimeRange, ParseError>(time_range),
                None => Err::<RankingAggregationTimeRange, ParseError>(
                    ParseError::VariantNotFound,
                ),
            },
    {
        if same_text(text, "all") {
            Ok(RankingAggregationTimeRange::All)
        } else if same_text(text, "last_one_year") {
            Ok(RankingAggregationTimeRange::LastOneYear)
        } else if same_text(text, "last_one_month") {
            Ok(RankingAggregationTimeRange::LastOneMonth)
        } else if same_text(text, "last_one_week") {
            Ok(RankingAggregationTimeRange::LastOneWeek)
        } else if same_text(text, "last_one_day") {
            Ok(RankingAggregationTimeRange::LastOneDay)
        } else {
            Err(ParseError::VariantNotFound)
        }
    }
}

} // verus!

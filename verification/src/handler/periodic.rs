//! The periodic ranking: which request is answered, and how.

use crate::handlers::ranking::{get_param, param_value, parse_query, parsed_pairs, text_of};
use crate::model::{ranking_type_named, RankingType};
use crate::models::ParseError;
use crate::text::same_text;
use vstd::prelude::*;
use vstd::string::*;
use vstd::utf8::*;

verus! {

/// The periods over which a periodic ranking runs.
#[derive(Clone, Copy, Debug, PartialEq, Eq, Structural)]
pub enum RankingPeriod {
    Total,
    Yearly,
    Monthly,
    Weekly,
    Daily,
}

/// How a request for a periodic ranking is answered.
#[derive(Clone, Copy, Debug, PartialEq, Eq, Structural)]
pub enum PeriodicAnswer {
    /// The type or the duration is not known.
    BadRequest,
    /// The request asks only for what has changed, and nothing has.
    NotModified,
    /// The ranking is sent.
    Ranking(RankingType, RankingPeriod),
}

/// The period that a text names: the variant's name in lower case.
pub open spec fn ranking_period_named(text: Seq<char>) -> Option<RankingPeriod> {
    if text == "total"@ {
        Some(RankingPeriod::Total)
    } else if text == "yearly"@ {
        Some(RankingPeriod::Yearly)
    } else if text == "monthly"@ {
        Some(RankingPeriod::Monthly)
    } else if text == "weekly"@ {
        Some(RankingPeriod::Weekly)
    } else if text == "daily"@ {
        Some(RankingPeriod::Daily)
    } else {
        None
    }
}

/// The answer to a request with the parameters `type` and `duration`,
/// `break` and `total` where they are missing. The type is looked at first.
pub open spec fn periodic_answer_of(
    kind: Option<Seq<char>>,
    duration: Option<Seq<char>>,
    if_unmodified_since: bool,
) -> PeriodicAnswer {
    let kind_text = match kind {
        Some(text) => text,
        None => "break"@,
    };
    let duration_text = match duration {
        Some(text) => text,
        None => "total"@,
    };
    match (ranking_type_named(kind_text), ranking_period_named(duration_text)) {
        (Some(ranking_type), Some(period)) => if if_unmodified_since {
            PeriodicAnswer::NotModified
        } else {
            PeriodicAnswer::Ranking(ranking_type, period)
        },
        _ => PeriodicAnswer::BadRequest,
    }
}

impl RankingPeriod {
    /// Reads a period from its name.
    pub fn from_str(text: &str) -> (r: Result<RankingPeriod, ParseError>)
        ensures
            r == match ranking_period_named(text@) {
                Some(period) => Ok::<RankingPeriod, ParseError>(period),
                None => Err::<RankingPeriod, ParseError>(ParseError::VariantNotFound),
            },
    {
        if same_text(text, "total") {
            Ok(RankingPeriod::Total)
        } else if same_text(text, "yearly") {
            Ok(RankingPeriod::Yearly)
        } else if same_text(text, "monthly") {
            Ok(RankingPeriod::Monthly)
        } else if same_text(text, "weekly") {
            Ok(RankingPeriod::Weekly)
        } else if same_text(text, "daily") {
            Ok(RankingPeriod::Daily)
        } else {
            Err(ParseError::VariantNotFound)
        }
    }
}

/// Decides the answer to a request for a periodic ranking.
/// `if_unmodified_since` says whether the request carries that header.
pub fn periodic_answer(kind: Option<&str>, duration: Option<&str>, if_unmodified_since: bool) -> (answer:
    PeriodicAnswer)
    ensures
        answer == periodic_answer_of(text_of(kind), text_of(duration), if_unmodified_since),
{
    let kind_text = match kind {
        Some(text) => text,
        None => "break",
    };
    let duration_text = match duration {
        Some(text) => text,
        None => "total",
    };
    let ranking_type = match RankingType::from_str(kind_text) {
        Ok(ranking_type) => ranking_type,
        Err(_) => {
            return PeriodicAnswer::BadRequest;
        },
    };
    let period = match RankingPeriod::from_str(duration_text) {
        Ok(period) => period,
        Err(_) => {
            return PeriodicAnswer::BadRequest;
        },
    };
    if if_unmodified_since {
        PeriodicAnswer::NotModified
    } else {
        PeriodicAnswer::Ranking(ranking_type, period)
    }
}

/// The answer to a request with this query string. A query string with
/// characters outside ASCII, which no URL has, is a bad request.
pub open spec fn periodic_request_of(query: Seq<char>, if_unmodified_since: bool) -> PeriodicAnswer {
    if is_ascii_chars(query) {
        let pairs = parsed_pairs(query);
        periodic_answer_of(
            param_value(pairs, "type"@),
            param_value(pairs, "duration"@),
            if_unmodified_since,
        )
    } else {
        PeriodicAnswer::BadRequest
    }
}

/// Decides the answer to a request for a periodic ranking from the query
/// string of its URL.
pub fn periodic_request(query: &str, if_unmodified_since: bool) -> (answer: PeriodicAnswer)
    ensures
        answer == periodic_request_of(query@, if_unmodified_since),
{
    if !query.is_ascii() {
        return PeriodicAnswer::BadRequest;
    }
    let qs = parse_query(query);
    periodic_answer(get_param(&qs, "type"), get_param(&qs, "duration"), if_unmodified_since)
}

} // verus!

//! Reading a request for a ranking: the time range, the kind of attribution,
//! and the page.

use crate::models::{time_range_named, AggregationTimeRange, AttributionKind};
use crate::text::{parse_number, parsed_number, same_text};
use qstring::QString;
use vstd::prelude::*;
use vstd::string::*;
use vstd::utf8::*;

verus! {

/// The parsed query string of `qstring`.
#[verifier::external_type_specification]
#[verifier::external_body]
pub struct ExQString(qstring::QString);

/// The parameters that a parsed query string holds, in their order: each
/// with its name and, if it has one, its value.
pub uninterp spec fn query_pairs(qs: QString) -> Seq<(Seq<char>, Option<Seq<char>>)>;

/// The parameters that `qstring` reads from the text of a query string.
pub uninterp spec fn parsed_pairs(query: Seq<char>) -> Seq<(Seq<char>, Option<Seq<char>>)>;

/// Whether some parameter has the name `name`.
#[verifier::opaque]
pub open spec fn has_param(pairs: Seq<(Seq<char>, Option<Seq<char>>)>, name: Seq<char>) -> bool {
    exists|i: int| 0 <= i < pairs.len() && (#[trigger] pairs[i]).0 == name
}

/// The position of the first parameter with the name `name`.
#[verifier::opaque]
pub open spec fn first_param(pairs: Seq<(Seq<char>, Option<Seq<char>>)>, name: Seq<char>) -> int {
    choose|i: int|
        0 <= i < pairs.len() && (#[trigger] pairs[i]).0 == name && forall|j: int|
            0 <= j < i ==> (#[trigger] pairs[j]).0 != name
}

/// The value of the parameter `name`: that of the first parameter of this
/// name, the empty text if that one has no value, and nothing if there is
/// no parameter of this name.
pub open spec fn param_value(pairs: Seq<(Seq<char>, Option<Seq<char>>)>, name: Seq<char>) -> Option<
    Seq<char>,
> {
    if has_param(pairs, name) {
        match pairs[first_param(pairs, name)].1 {
            Some(value) => Some(value),
            None => Some(Seq::<char>::empty()),
        }
    } else {
        None
    }
}

/// `QString::from` parses the query part of a URL, with or without the
/// question mark before it. The contract only names the parameters that it
/// finds: they are the same for the same text. On text outside ASCII
/// `qstring` can cut a character in two and panic, so such text is not
/// handed to it.
#[verifier::external_body]
pub(crate) fn parse_query(query: &str) -> (qs: QString)
    requires
        is_ascii(query),
    ensures
        query_pairs(qs) == parsed_pairs(query@),
{
    QString::from(query)
}

/// `QString::get` looks a parameter up by its name: it gives the value of
/// the first parameter of that name, the empty text where that parameter
/// has no value, and nothing where no parameter has the name.
#[verifier::external_body]
pub(crate) fn get_param<'a>(qs: &'a QString, name: &str) -> (value: Option<&'a str>)
    ensures
        text_of(value) == param_value(query_pairs(*qs), name@),
{
    qs.get(name)
}

/// A text or none, as plain characters.
pub open spec fn text_of(value: Option<&str>) -> Option<Seq<char>> {
    match value {
        Some(text) => Some(text@),
        None => None,
    }
}

/// The most records that one request may ask for.
pub const RANKING_MAX_LIMIT_PER_REQUEST: usize = 1000;

/// How many records a page has when the request names no limit.
pub const DEFAULT_LIMIT: usize = 20;

/// Why a request is turned down.
#[derive(Clone, Copy, Debug, PartialEq, Eq, Structural)]
pub enum QueryError {
    /// The query string holds characters outside ASCII, which no URL does.
    MalformedQuery,
    /// The time range is none of the known specifiers.
    DurationNotRecognized,
    /// The limit is larger than one request may ask for.
    LimitTooLarge(usize),
    /// The kind of attribution is none of the known specifiers.
    UnknownAttributionKind,
}

/// A request for a page of a ranking.
#[derive(Clone, Copy, Debug, PartialEq, Eq, Structural)]
pub struct RankingQuery {
    pub kind: AttributionKind,
    pub time_range: AggregationTimeRange,
    pub offset: usize,
    pub limit: usize,
}

/// A request for the rank of one player.
#[derive(Clone, Copy, Debug, PartialEq, Eq, Structural)]
pub struct PlayerRankQuery {
    pub kind: AttributionKind,
    pub time_range: AggregationTimeRange,
}

/// The kind of attribution that a specifier names: `break`, `build`,
/// `play_ticks` or `vote_count`.
pub open spec fn attribution_kind_named(text: Seq<char>) -> Option<AttributionKind> {
    if text == "break"@ {
        Some(AttributionKind::Break)
    } else if text == "build"@ {
        Some(AttributionKind::Build)
    } else if text == "play_ticks"@ {
        Some(AttributionKind::PlayTicks)
    } else if text == "vote_count"@ {
        Some(AttributionKind::Vote)
    } else {
        None
    }
}

/// The specifier of the time range of a request: `all` where the request
/// names none.
pub open spec fn time_range_specifier(time_range: Option<Seq<char>>) -> Seq<char> {
    match time_range {
        Some(text) => text,
        None => "all"@,
    }
}

/// The specifier of the kind of a request: `break` where the request names
/// none.
pub open spec fn kind_specifier(kind: Option<Seq<char>>) -> Seq<char> {
    match kind {
        Some(text) => text,
        None => "break"@,
    }
}

/// The number that a parameter gives: none where the parameter is missing
/// or is no number that fits `usize`.
pub open spec fn usize_param(value: Option<Seq<char>>) -> Option<usize> {
    match value {
        Some(text) => match parsed_number(text, usize::MAX as u64) {
            Some(number) => Some(number as usize),
            None => None,
        },
        None => None,
    }
}

/// The request that four parameters spell, or why there is none. The time
/// range is looked at first, then the limit, then the kind.
pub open spec fn ranking_query_of(
    time_range: Option<Seq<char>>,
    limit: Option<Seq<char>>,
    offset: Option<Seq<char>>,
    kind: Option<Seq<char>>,
) -> Result<RankingQuery, QueryError> {
    let limit_asked = match usize_param(limit) {
        Some(number) => number,
        None => DEFAULT_LIMIT,
    };
    let offset_asked = match usize_param(offset) {
        Some(number) => number,
        None => 0usize,
    };
    match time_range_named(time_range_specifier(time_range)) {
        None => Err(QueryError::DurationNotRecognized),
        Some(range) => if limit_asked > RANKING_MAX_LIMIT_PER_REQUEST {
            Err(QueryError::LimitTooLarge(limit_asked))
        } else {
            match attribution_kind_named(kind_specifier(kind)) {
                None => Err(QueryError::UnknownAttributionKind),
                Some(kind) => Ok(
                    RankingQuery {
                        kind,
                        time_range: range,
                        offset: offset_asked,
                        limit: limit_asked,
                    },
                ),
            }
        },
    }
}

/// The request for a player's rank that two parameters spell, or why there
/// is none. The time range is looked at first.
pub open spec fn player_rank_query_of(
    time_range: Option<Seq<char>>,
    kind: Option<Seq<char>>,
) -> Result<PlayerRankQuery, QueryError> {
    match time_range_named(time_range_specifier(time_range)) {
        None => Err(QueryError::DurationNotRecognized),
        Some(range) => match attribution_kind_named(kind_specifier(kind)) {
            None => Err(QueryError::UnknownAttributionKind),
            Some(kind) => Ok(PlayerRankQuery { kind, time_range: range }),
        },
    }
}

/// Reads a kind of attribution from its specifier.
pub fn attribution_kind_from(text: &str) -> (kind: Option<AttributionKind>)
    ensures
        kind == attribution_kind_named(text@),
{
    if same_text(text, "break") {
        Some(AttributionKind::Break)
    } else if same_text(text, "build") {
        Some(AttributionKind::Build)
    } else if same_text(text, "play_ticks") {
        Some(AttributionKind::PlayTicks)
    } else if same_text(text, "vote_count") {
        Some(AttributionKind::Vote)
    } else {
        None
    }
}

/// The time range specifier of a request, `all` by default.
pub fn time_range_from_qs<'a>(time_range: Option<&'a str>) -> (text: &'a str)
    ensures
        text@ == time_range_specifier(text_of(time_range)),
{
    match time_range {
        Some(text) => text,
        None => "all",
    }
}

/// Reads a number from a parameter of the request.
pub fn parse_usize_param(value: Option<&str>) -> (number: Option<usize>)
    ensures
        number == usize_param(text_of(value)),
{
    match value {
        Some(text) => match parse_number(text, usize::MAX as u64) {
            Some(number) => Some(number as usize),
            None => None,
        },
        None => None,
    }
}

/// Reads the request for a page of a ranking from the parameters
/// `time_range`, `limit`, `offset` and `type`. A limit or an offset that is
/// missing or no number counts as 20 or as 0.
pub fn ranking_query(
    time_range: Option<&str>,
    limit: Option<&str>,
    offset: Option<&str>,
    kind: Option<&str>,
) -> (query: Result<RankingQuery, QueryError>)
    ensures
        query == ranking_query_of(
            text_of(time_range),
            text_of(limit),
            text_of(offset),
            text_of(kind),
        ),
{
    let range = match AggregationTimeRange::from_str(time_range_from_qs(time_range)) {
        Ok(range) => range,
        Err(_) => {
            return Err(QueryError::DurationNotRecognized);
        },
    };
    let limit_asked: usize = match parse_usize_param(limit) {
        Some(number) => number,
        None => DEFAULT_LIMIT,
    };
    let offset_asked: usize = match parse_usize_param(offset) {
        Some(number) => number,
        None => 0,
    };
    if limit_asked > RANKING_MAX_LIMIT_PER_REQUEST {
        return Err(QueryError::LimitTooLarge(limit_asked));
    }
    let kind_text = match kind {
        Some(text) => text,
        None => "break",
    };
    match attribution_kind_from(kind_text) {
        Some(kind) => Ok(
            RankingQuery { kind, time_range: range, offset: offset_asked, limit: limit_asked },
        ),
        None => Err(QueryError::UnknownAttributionKind),
    }
}

/// Reads the request for one player's rank from the parameters `time_range`
/// and `type`.
pub fn player_rank_query(time_range: Option<&str>, kind: Option<&str>) -> (query: Result<
    PlayerRankQuery,
    QueryError,
>)
    ensures
        query == player_rank_query_of(text_of(time_range), text_of(kind)),
{
    let range = match AggregationTimeRange::from_str(time_range_from_qs(time_range)) {
        Ok(range) => range,
        Err(_) => {
            return Err(QueryError::DurationNotRecognized);
        },
    };
    let kind_text = match kind {
        Some(text) => text,
        None => "break",
    };
    match attribution_kind_from(kind_text) {
        Some(kind) => Ok(PlayerRankQuery { kind, time_range: range }),
        None => Err(QueryError::UnknownAttributionKind),
    }
}

/// The request for a page that a query string spells, or why there is
/// none.
pub open spec fn ranking_request_of(query: Seq<char>) -> Result<RankingQuery, QueryError> {
    if is_ascii_chars(query) {
        let pairs = parsed_pairs(query);
        ranking_query_of(
            param_value(pairs, "time_range"@),
            param_value(pairs, "limit"@),
            param_value(pairs, "offset"@),
            param_value(pairs, "type"@),
        )
    } else {
        Err(QueryError::MalformedQuery)
    }
}

/// The request for a player's rank that a query string spells, or why there
/// is none.
pub open spec fn player_rank_request_of(query: Seq<char>) -> Result<PlayerRankQuery, QueryError> {
    if is_ascii_chars(query) {
        let pairs = parsed_pairs(query);
        player_rank_query_of(param_value(pairs, "time_range"@), param_value(pairs, "type"@))
    } else {
        Err(QueryError::MalformedQuery)
    }
}

/// Reads the request for a page of a ranking from the query string of a
/// URL.
pub fn ranking_request(query: &str) -> (request: Result<RankingQuery, QueryError>)
    ensures
        request == ranking_request_of(query@),
{
    if !query.is_ascii() {
        return Err(QueryError::MalformedQuery);
    }
    let qs = parse_query(query);
    ranking_query(
        get_param(&qs, "time_range"),
        get_param(&qs, "limit"),
        get_param(&qs, "offset"),
        get_param(&qs, "type"),
    )
}

/// Reads the request for one player's rank from the query string of a URL.
pub fn player_rank_request(query: &str) -> (request: Result<PlayerRankQuery, QueryError>)
    ensures
        request == player_rank_request_of(query@),
{
    if !query.is_ascii() {
        return Err(QueryError::MalformedQuery);
    }
    let qs = parse_query(query);
    player_rank_query(get_param(&qs, "time_range"), get_param(&qs, "type"))
}

} // verus!

//! Text for people: dates, queue names, ratings, and names made safe for
//! comma-separated rows.

use crate::decimal::{push_signed_decimal, signed_decimal};
use crate::fetch::LeaderboardId;
use crate::filters::lemma_filter_step;
use vstd::prelude::*;
use vstd::string::StringExecFns;

verus! {

/// What is taken on trust of std's `String::push`: it appends the given
/// character to the end of the string and changes nothing else.
pub assume_specification[ String::push ](text: &mut String, ch: char)
    ensures
        final(text)@ == old(text)@.push(ch),
;

/// The characters that are no comma.
pub open spec fn not_comma() -> spec_fn(char) -> bool {
    |c: char| c != ','
}

/// `text` without its commas.
pub fn without_commas(text: &str) -> (kept: String)
    ensures
        kept@ == text@.filter(not_comma()),
{
    broadcast use vstd::string::group_string_axioms;

    let mut kept = String::new();
    let chars = text.chars();
    for c in iter: chars
        invariant
            iter.seq() == text@,
            kept@ == text@.take(iter.index()).filter(not_comma()),
    {
        proof {
            lemma_filter_step(text@, not_comma(), iter.index());
        }
        if c != ',' {
            kept.push(c);
        }
    }
    assert(text@.take(text@.len() as int) =~= text@);
    kept
}

/// The date and time of day, in UTC, of a number of seconds since the
/// epoch, written as year, month and day with hyphens between them, a
/// space, and hours, minutes and seconds with colons between them; nothing
/// where the calendar in use cannot hold the moment.
pub uninterp spec fn utc_date_text(timestamp: i64) -> Option<Seq<char>>;

/// Writes a number of seconds since the epoch as a date and time of day in
/// UTC. The body is not verified: it calls chrono's
/// `DateTime::from_timestamp`, which gives nothing for a moment out of its
/// range, and writes the moment with `DateTime::format` and the pattern
/// `%Y-%m-%d %H:%M:%S`. What is taken on trust is that the answer depends on
/// the number of seconds alone: it is `utc_date_text` of that number.
#[verifier::external_body]
pub fn timestamp_to_date(timestamp: i64) -> (date: Option<String>)
    ensures
        match date {
            Some(text) => utc_date_text(timestamp) == Some(text@),
            None => utc_date_text(timestamp) is None,
        },
{
    match chrono::DateTime::from_timestamp(timestamp, 0) {
        Some(date_time) => Some(date_time.format("%Y-%m-%d %H:%M:%S").to_string()),
        None => None,
    }
}

/// The name of a queue: `solo` for the ranked solo queue, `team` for every
/// other.
pub open spec fn leaderboard_name(leaderboard_id: LeaderboardId) -> Seq<char> {
    if leaderboard_id == LeaderboardId::RankedSolo {
        "solo"@
    } else {
        "team"@
    }
}

/// The name of a queue.
pub fn leaderboard_id_to_name(leaderboard_id: LeaderboardId) -> (name: String)
    ensures
        name@ == leaderboard_name(leaderboard_id),
{
    match leaderboard_id {
        LeaderboardId::RankedSolo => String::from_str("solo"),
        _ => String::from_str("team"),
    }
}

/// The queue that a name stands for: the ranked solo queue for `solo`, the
/// ranked team queue for every other name.
pub open spec fn leaderboard_of_name(leaderboard_name: Seq<char>) -> LeaderboardId {
    if leaderboard_name == "solo"@ {
        LeaderboardId::RankedSolo
    } else {
        LeaderboardId::RankedTeam
    }
}

/// The queue that a name stands for.
pub fn get_leaderboard_id_from_name(leaderboard_name: &str) -> (id: LeaderboardId)
    ensures
        id == leaderboard_of_name(leaderboard_name@),
{
    if leaderboard_name.to_owned() == String::from_str("solo") {
        LeaderboardId::RankedSolo
    } else {
        LeaderboardId::RankedTeam
    }
}

/// The other ranked queue: the team queue for the solo queue, the solo
/// queue for every other.
pub open spec fn opposite_leaderboard(leaderboard_id: LeaderboardId) -> LeaderboardId {
    if leaderboard_id == LeaderboardId::RankedSolo {
        LeaderboardId::RankedTeam
    } else {
        LeaderboardId::RankedSolo
    }
}

/// The other ranked queue.
pub fn get_opposite_leaderboard_id(leaderboard_id: LeaderboardId) -> (id: LeaderboardId)
    ensures
        id == opposite_leaderboard(leaderboard_id),
{
    match leaderboard_id {
        LeaderboardId::RankedSolo => LeaderboardId::RankedTeam,
        _ => LeaderboardId::RankedSolo,
    }
}

/// A player's rating in a game of one queue beside the current rating in
/// another queue, in brackets.
pub open spec fn ratings_text(
    leaderboard_name1: Seq<char>,
    rating1: i32,
    leaderboard_name2: Seq<char>,
    rating2: i32,
) -> Seq<char> {
    "("@ + leaderboard_name1 + " elo in game="@ + signed_decimal(rating1 as int) + ", current "@
        + leaderboard_name2 + " elo="@ + signed_decimal(rating2 as int) + ")"@
}

/// Writes a player's rating in a game of one queue beside the current
/// rating in another queue.
pub fn ratings_to_string(
    leaderboard_name1: &str,
    rating1: i32,
    leaderboard_name2: &str,
    rating2: i32,
) -> (text: String)
    ensures
        text@ == ratings_text(leaderboard_name1@, rating1, leaderboard_name2@, rating2),
{
    let mut text = String::from_str("(");
    text.append(leaderboard_name1);
    text.append(" elo in game=");
    push_signed_decimal(&mut text, rating1 as i64);
    text.append(", current ");
    text.append(leaderboard_name2);
    text.append(" elo=");
    push_signed_decimal(&mut text, rating2 as i64);
    text.append(")");
    text
}

} // verus!

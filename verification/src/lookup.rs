//! From a player's raw match history to the tracked record of one queue.

use crate::error::RuntimeError;
use crate::fetch::{GameView, LeaderboardId, MatchHistoryGameResponse};
use crate::filters::lemma_filter_step;
use crate::player_tracker::{games_view, PlayerTracker, TrackerView};
use vstd::prelude::*;

verus! {

/// The games that were played in the given queue.
pub open spec fn in_leaderboard(leaderboard_id: LeaderboardId) -> spec_fn(GameView) -> bool {
    |game: GameView| game.get_leaderboard_id() == leaderboard_id
}

/// Keeps the games of one queue, in their order.
pub fn retain_leaderboard(
    match_history: Vec<MatchHistoryGameResponse>,
    leaderboard_id: LeaderboardId,
) -> (kept: Vec<MatchHistoryGameResponse>)
    ensures
        games_view(kept@) == games_view(match_history@).filter(in_leaderboard(leaderboard_id)),
{
    let ghost all = games_view(match_history@);
    let mut kept: Vec<MatchHistoryGameResponse> = Vec::new();
    for game in iter: match_history
        invariant
            iter.seq() == match_history@,
            all == games_view(match_history@),
            games_view(kept@) == all.take(iter.index()).filter(in_leaderboard(leaderboard_id)),
    {
        proof {
            lemma_filter_step(all, in_leaderboard(leaderboard_id), iter.index());
        }
        if game.get_leaderboard_id() == leaderboard_id {
            kept.push(game);
        }
    }
    assert(all.take(all.len() as int) =~= all);
    kept
}

/// What a lookup says of a player without a game in the queue asked for.
pub open spec fn no_games_message() -> Seq<char> {
    "Player has not played any games."@
}

/// Tracks a player's history of one queue, given most recent first, from
/// nothing. An empty history is no history: it is answered with an error.
pub fn track_history(profile_id: i32, match_history: &Vec<MatchHistoryGameResponse>) -> (result:
    Result<PlayerTracker, RuntimeError>)
    ensures
        match result {
            Ok(tracker) => {
                &&& match_history.len() > 0
                &&& tracker@ == TrackerView::new(profile_id).track_players(
                    games_view(match_history@),
                )
                &&& tracker@.wf()
            },
            Err(error) => match_history.len() == 0 && error@ == no_games_message(),
        },
{
    if match_history.len() == 0 {
        return Err(RuntimeError::new("Player has not played any games."));
    }
    let mut tracker = PlayerTracker::new(profile_id);
    tracker.track_players(match_history);
    Ok(tracker)
}

} // verus!

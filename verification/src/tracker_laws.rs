//! What holds of every tracked history: the bounds on the counters, how
//! outcomes follow from results and ratings, and how the history of two
//! periods combines.

use crate::fetch::{GameView, PlayerView};
use crate::player_tracker::{
    explicit_result, lemma_add_record_wf, lemma_add_records_frame, lemma_record_match_totals,
    lemma_remember_players_frame, outcome_at, rating_in, rating_trend, reference_rating, resolve,
    tracked_outcome, Outcome, RecordView, TrackerView,
};
use vstd::prelude::*;

verus! {

/// An explicit result decides the outcome, whatever the ratings in the
/// game and in the reference are.
pub proof fn lemma_explicit_result_decides(game: GameView, profile_id: i32, reference: GameView)
    requires
        explicit_result(game, profile_id) is Some,
    ensures
        resolve(game, profile_id, reference) == if explicit_result(game, profile_id)
            == Some(true) {
            Outcome::Win
        } else {
            Outcome::Loss
        },
{
}

/// Without an explicit result the outcome of a player's game follows the
/// rating: a win where the rating is higher in the reference, a loss where
/// it is lower, undetermined where it is the same.
pub proof fn lemma_rating_decides(game: GameView, profile_id: i32, reference: GameView)
    requires
        game.get_player_by_profile_id(profile_id) is Some,
        explicit_result(game, profile_id) is None,
    ensures
        rating_in(game, profile_id) < reference_rating(game, profile_id, reference) ==> resolve(
            game,
            profile_id,
            reference,
        ) == Outcome::Win,
        rating_in(game, profile_id) > reference_rating(game, profile_id, reference) ==> resolve(
            game,
            profile_id,
            reference,
        ) == Outcome::Loss,
        rating_in(game, profile_id) == reference_rating(game, profile_id, reference) ==> resolve(
            game,
            profile_id,
            reference,
        ) == Outcome::Undetermined,
{
}

/// In a history given most recent first, a match of the tracked player
/// that has a later match and no explicit result is decided by the rating
/// in that later match.
pub proof fn lemma_outcome_follows_next_match(profile_id: i32, matches: Seq<GameView>, i: int)
    requires
        0 < i < matches.len(),
        matches[i].get_player_by_profile_id(profile_id) is Some,
        explicit_result(matches[i], profile_id) is None,
    ensures
        outcome_at(profile_id, matches, i) == rating_trend(
            rating_in(matches[i], profile_id),
            reference_rating(matches[i], profile_id, matches[i - 1]),
        ),
{
}

/// In a history, a finished match with an explicit result is recorded
/// with that result, whatever the ratings are.
pub proof fn lemma_finished_match_keeps_result(profile_id: i32, matches: Seq<GameView>, i: int)
    requires
        0 <= i < matches.len(),
        !matches[i].in_progress(),
        explicit_result(matches[i], profile_id) is Some,
    ensures
        outcome_at(profile_id, matches, i) == if explicit_result(matches[i], profile_id) == Some(
            true,
        ) {
            Outcome::Win
        } else {
            Outcome::Loss
        },
{
}

/// Of a match in progress no result is believed: whatever the feed says of
/// it, the outcome is what the rating alone gives.
pub proof fn lemma_match_in_progress_is_inferred(
    game: GameView,
    profile_id: i32,
    reference: GameView,
)
    requires
        game.in_progress(),
        game.get_player_by_profile_id(profile_id) is Some,
    ensures
        tracked_outcome(game, profile_id, reference) == rating_trend(
            rating_in(game, profile_id),
            reference_rating(game, profile_id, reference),
        ),
{
}

/// The newest match of a history is undetermined while it is in progress,
/// and, once finished, whenever the feed gives no result for it.
pub proof fn lemma_newest_match_outcome(profile_id: i32, matches: Seq<GameView>)
    requires
        matches.len() > 0,
    ensures
        matches[0].in_progress() ==> outcome_at(profile_id, matches, 0) == Outcome::Undetermined,
        explicit_result(matches[0], profile_id) is None ==> outcome_at(profile_id, matches, 0)
            == Outcome::Undetermined,
{
}

/// Adding a game to the records of several opponents keeps every record
/// well formed.
pub proof fn lemma_add_records_wf(
    state: TrackerView,
    ids: Seq<i32>,
    outcome: Outcome,
    game: GameView,
)
    requires
        state.wf(),
    ensures
        state.add_records(ids, outcome, game).wf(),
    decreases ids.len(),
{
    if ids.len() > 0 {
        lemma_add_records_wf(state, ids.drop_last(), outcome, game);
        lemma_add_record_wf(
            state.add_records(ids.drop_last(), outcome, game),
            ids.last(),
            outcome,
            game,
        );
    }
}

/// Remembering players keeps the state well formed.
pub proof fn lemma_remember_players_wf(state: TrackerView, seen: Seq<PlayerView>)
    requires
        state.wf(),
    ensures
        state.remember_players(seen).wf(),
    decreases seen.len(),
{
    if seen.len() > 0 {
        lemma_remember_players_wf(state, seen.drop_last());
    }
}

/// Recording a match keeps the state well formed.
pub proof fn lemma_record_match_wf(state: TrackerView, game: GameView, outcome: Outcome)
    requires
        state.wf(),
    ensures
        state.record_match(game, outcome).wf(),
{
    if game.get_player_by_profile_id(state.profile_id) is Some {
        let ids = game.get_opposing_team_profile_ids(state.profile_id);
        lemma_add_records_wf(state, ids, outcome, game);
        let counted = state.add_records(ids, outcome, game).count_outcome(outcome);
        assert(counted.wf());
        lemma_remember_players_wf(counted, game.get_opposing_team(state.profile_id));
        lemma_remember_players_wf(
            counted.remember_players(game.get_opposing_team(state.profile_id)),
            game.get_my_team(state.profile_id),
        );
    }
}

/// Recording part of a history keeps the tracked identity.
pub proof fn lemma_track_from_identity(state: TrackerView, matches: Seq<GameView>, from: int)
    ensures
        state.track_from(matches, from).profile_id == state.profile_id,
    decreases matches.len() - from,
{
    if 0 <= from < matches.len() {
        lemma_track_from_identity(state, matches, from + 1);
        lemma_record_match_totals(
            state.track_from(matches, from + 1),
            matches[from],
            outcome_at(state.profile_id, matches, from),
        );
    }
}

/// Recording part of a history keeps the state well formed.
pub proof fn lemma_track_from_wf(state: TrackerView, matches: Seq<GameView>, from: int)
    requires
        state.wf(),
    ensures
        state.track_from(matches, from).wf(),
    decreases matches.len() - from,
{
    if 0 <= from < matches.len() {
        lemma_track_from_wf(state, matches, from + 1);
        lemma_record_match_wf(
            state.track_from(matches, from + 1),
            matches[from],
            outcome_at(state.profile_id, matches, from),
        );
    }
}

/// After any history, no record counts more wins and losses than it holds
/// games: a game whose outcome is undetermined is held and not counted.
pub proof fn lemma_counters_bounded_by_games(state: TrackerView, matches: Seq<GameView>)
    requires
        state.wf(),
    ensures
        state.track_players(matches).wf(),
        forall|k: i32| #[trigger]
            state.track_players(matches).records.contains_key(k) ==> state.track_players(
                matches,
            ).records[k].wins_against + state.track_players(matches).records[k].losses_to
                <= state.track_players(matches).records[k].games.len(),
{
    lemma_track_from_wf(state, matches, 0);
}

/// The totals count each match at most once, however many opponents it
/// had.
pub proof fn lemma_totals_bounded_by_matches(state: TrackerView, matches: Seq<GameView>, from: int)
    requires
        0 <= from <= matches.len(),
    ensures
        state.track_from(matches, from).wins + state.track_from(matches, from).losses <= state.wins
            + state.losses + (matches.len() - from),
    decreases matches.len() - from,
{
    if from < matches.len() {
        lemma_totals_bounded_by_matches(state, matches, from + 1);
        lemma_record_match_totals(
            state.track_from(matches, from + 1),
            matches[from],
            outcome_at(state.profile_id, matches, from),
        );
    }
}

/// Recording a history that is split in two, the older part first and the
/// newer part on top of it, gives what recording the whole gives, provided
/// that the newest match of the older part has the same outcome by itself
/// as with the match that follows it in the whole.
pub proof fn lemma_track_in_two_steps(state: TrackerView, newer: Seq<GameView>, older: Seq<GameView>)
    requires
        newer.len() > 0 && older.len() > 0 ==> outcome_at(
            state.profile_id,
            newer + older,
            newer.len() as int,
        ) == outcome_at(state.profile_id, older, 0),
    ensures
        state.track_players(newer + older) == state.track_players(older).track_players(newer),
{
    lemma_track_older_part(state, newer, older, newer.len() as int);
    lemma_track_newer_part(state, newer, older, 0);
}

/// From the first match of the older part on, the whole history is
/// recorded as the older part alone is.
proof fn lemma_track_older_part(
    state: TrackerView,
    newer: Seq<GameView>,
    older: Seq<GameView>,
    from: int,
)
    requires
        newer.len() <= from,
        newer.len() > 0 && older.len() > 0 ==> outcome_at(
            state.profile_id,
            newer + older,
            newer.len() as int,
        ) == outcome_at(state.profile_id, older, 0),
    ensures
        state.track_from(newer + older, from) == state.track_from(older, from - newer.len()),
    decreases (newer + older).len() - from,
{
    let whole = newer + older;
    if from < whole.len() {
        lemma_track_older_part(state, newer, older, from + 1);
        assert(whole[from] == older[from - newer.len()]);
        if from > newer.len() {
            assert(whole[from - 1] == older[from - 1 - newer.len()]);
        }
        assert(outcome_at(state.profile_id, whole, from) == outcome_at(
            state.profile_id,
            older,
            from - newer.len(),
        ));
    }
}

/// Up to the last match of the newer part, the whole history is recorded
/// as the newer part is on top of the older part.
proof fn lemma_track_newer_part(
    state: TrackerView,
    newer: Seq<GameView>,
    older: Seq<GameView>,
    from: int,
)
    requires
        0 <= from <= newer.len(),
        state.track_from(newer + older, newer.len() as int) == state.track_players(older),
    ensures
        state.track_from(newer + older, from) == state.track_players(older).track_from(
            newer,
            from,
        ),
    decreases newer.len() - from,
{
    let whole = newer + older;
    if from < newer.len() {
        lemma_track_newer_part(state, newer, older, from + 1);
        lemma_track_from_identity(state, older, 0);
        assert(whole[from] == newer[from]);
        if from > 0 {
            assert(whole[from - 1] == newer[from - 1]);
        }
        assert(outcome_at(state.profile_id, whole, from) == outcome_at(
            state.profile_id,
            newer,
            from,
        ));
    }
}

/// The record against one opponent over two periods: the counters add up,
/// the games of the later period follow those of the earlier one, and the
/// opponent was last played when the later period says, if it holds a
/// game.
pub open spec fn combine_records(earlier: RecordView, later: RecordView) -> RecordView {
    RecordView {
        profile_id: earlier.profile_id,
        wins_against: earlier.wins_against + later.wins_against,
        losses_to: earlier.losses_to + later.losses_to,
        games: earlier.games + later.games,
        last_played_at: if later.games.len() > 0 {
            later.last_played_at
        } else {
            earlier.last_played_at
        },
    }
}

/// The history of one tracked player over two periods, summed up: the
/// totals add up, an opponent of both periods has the combined record, an
/// opponent of one period the record of that period, and of each player
/// the later snapshot is kept.
pub open spec fn combine(earlier: TrackerView, later: TrackerView) -> TrackerView {
    TrackerView {
        profile_id: earlier.profile_id,
        wins: earlier.wins + later.wins,
        losses: earlier.losses + later.losses,
        records: Map::new(
            |k: i32| earlier.records.contains_key(k) || later.records.contains_key(k),
            |k: i32|
                if earlier.records.contains_key(k) && later.records.contains_key(k) {
                    combine_records(earlier.records[k], later.records[k])
                } else if earlier.records.contains_key(k) {
                    earlier.records[k]
                } else {
                    later.records[k]
                },
        ),
        players: earlier.players.union_prefer_right(later.players),
    }
}

/// Adding a game to a record of the later period is adding it to the
/// record of both periods.
proof fn lemma_combine_add_records(
    earlier: TrackerView,
    later: TrackerView,
    ids: Seq<i32>,
    outcome: Outcome,
    game: GameView,
)
    ensures
        combine(earlier, later).add_records(ids, outcome, game) == combine(
            earlier,
            later.add_records(ids, outcome, game),
        ),
    decreases ids.len(),
{
    if ids.len() > 0 {
        lemma_combine_add_records(earlier, later, ids.drop_last(), outcome, game);
        let before = later.add_records(ids.drop_last(), outcome, game);
        let k = ids.last();
        let left = combine(earlier, before).add_record(k, outcome, game);
        let right = combine(earlier, before.add_record(k, outcome, game));
        assert(left.records[k].games =~= right.records[k].games);
        assert(left.records =~= right.records);
    }
}

/// Remembering players in the later period is remembering them over both
/// periods.
proof fn lemma_combine_remember_players(
    earlier: TrackerView,
    later: TrackerView,
    seen: Seq<PlayerView>,
)
    ensures
        combine(earlier, later).remember_players(seen) == combine(
            earlier,
            later.remember_players(seen),
        ),
    decreases seen.len(),
{
    if seen.len() > 0 {
        lemma_combine_remember_players(earlier, later, seen.drop_last());
        lemma_remember_players_frame(later, seen.drop_last());
        let left = combine(earlier, later).remember_players(seen);
        let right = combine(earlier, later.remember_players(seen));
        assert(left.players =~= right.players);
        assert(left.records =~= right.records);
    }
}

/// Recording a match in the later period is recording it over both
/// periods.
proof fn lemma_combine_record_match(
    earlier: TrackerView,
    later: TrackerView,
    game: GameView,
    outcome: Outcome,
)
    requires
        earlier.profile_id == later.profile_id,
    ensures
        combine(earlier, later).record_match(game, outcome) == combine(
            earlier,
            later.record_match(game, outcome),
        ),
{
    let id = earlier.profile_id;
    if game.get_player_by_profile_id(id) is Some {
        let ids = game.get_opposing_team_profile_ids(id);
        let opposing = game.get_opposing_team(id);
        let own = game.get_my_team(id);
        lemma_combine_add_records(earlier, later, ids, outcome, game);
        let added = later.add_records(ids, outcome, game);
        lemma_add_records_frame(later, ids, outcome, game);
        let counted = added.count_outcome(outcome);
        assert(combine(earlier, added).count_outcome(outcome) == combine(earlier, counted));
        lemma_combine_remember_players(earlier, counted, opposing);
        lemma_combine_remember_players(earlier, counted.remember_players(opposing), own);
    }
}

/// Recording matches on top of an earlier period is recording them from
/// nothing and summing up.
proof fn lemma_combine_track_from(earlier: TrackerView, matches: Seq<GameView>, from: int)
    ensures
        earlier.track_from(matches, from) == combine(
            earlier,
            TrackerView::new(earlier.profile_id).track_from(matches, from),
        ),
    decreases matches.len() - from,
{
    let fresh = TrackerView::new(earlier.profile_id);
    if 0 <= from < matches.len() {
        lemma_combine_track_from(earlier, matches, from + 1);
        lemma_track_from_identity(fresh, matches, from + 1);
        lemma_combine_record_match(
            earlier,
            fresh.track_from(matches, from + 1),
            matches[from],
            outcome_at(earlier.profile_id, matches, from),
        );
    } else {
        assert(combine(earlier, fresh).records =~= earlier.records);
        assert(combine(earlier, fresh).players =~= earlier.players);
    }
}

/// Recording more matches with a tracker that holds an earlier period
/// gives the sum of that period and of the matches recorded by themselves.
pub proof fn lemma_track_adds_up(earlier: TrackerView, matches: Seq<GameView>)
    ensures
        earlier.track_players(matches) == combine(
            earlier,
            TrackerView::new(earlier.profile_id).track_players(matches),
        ),
{
    lemma_combine_track_from(earlier, matches, 0);
}

/// Tracking the two halves of a history apart, each from nothing, and
/// summing up the results gives what tracking the whole history gives,
/// provided that the newest match of the older half has the same outcome by
/// itself as with the match that follows it in the whole.
pub proof fn lemma_track_halves_add_up(profile_id: i32, newer: Seq<GameView>, older: Seq<GameView>)
    requires
        newer.len() > 0 && older.len() > 0 ==> outcome_at(
            profile_id,
            newer + older,
            newer.len() as int,
        ) == outcome_at(profile_id, older, 0),
    ensures
        TrackerView::new(profile_id).track_players(newer + older) == combine(
            TrackerView::new(profile_id).track_players(older),
            TrackerView::new(profile_id).track_players(newer),
        ),
{
    let fresh = TrackerView::new(profile_id);
    lemma_track_in_two_steps(fresh, newer, older);
    lemma_track_from_identity(fresh, older, 0);
    lemma_track_adds_up(fresh.track_players(older), newer);
}

} // verus!

//! The win/loss record of one tracked player against each opponent, built
//! from a match history whose results are only partly labelled.

use crate::decimal::{decimal, push_decimal, push_signed_decimal, signed_decimal};
use crate::fetch::{
    player_refs_view, text_view, GameView, MatchHistoryGameResponse, MatchHistoryPlayerResponse,
    PlayerView,
};
use crate::format::{not_comma, timestamp_to_date, utc_date_text, without_commas};
use std::collections::HashMap;
use vstd::prelude::*;
use vstd::string::StringExecFns;

verus! {

broadcast use vstd::std_specs::hash::group_hash_axioms;

/// How a match ended for the tracked player.
#[derive(Clone, Copy, Debug, PartialEq, Eq, Structural)]
pub enum Outcome {
    Win,
    Loss,
    Undetermined,
}

/// The result that the feed commits to for the given player in `game`.
pub open spec fn explicit_result(game: GameView, profile_id: i32) -> Option<bool> {
    match game.get_player_by_profile_id(profile_id) {
        Some(player) => player.won,
        None => None,
    }
}

/// The rating of the given player in `game`; 0 where it is unknown or the
/// player is not in the game.
pub open spec fn rating_in(game: GameView, profile_id: i32) -> i32 {
    match game.get_player_by_profile_id(profile_id) {
        Some(player) => player.get_rating(),
        None => 0,
    }
}

/// The rating that the given player has in `reference`; where the player
/// is not in `reference`, the rating in `game`.
pub open spec fn reference_rating(game: GameView, profile_id: i32, reference: GameView) -> i32 {
    if reference.get_player_by_profile_id(profile_id) is Some {
        rating_in(reference, profile_id)
    } else {
        rating_in(game, profile_id)
    }
}

/// The outcome that a rating `rating`, followed by `later_rating`, stands
/// for: a rating that rose afterwards was a win, one that fell a loss.
pub open spec fn rating_trend(rating: i32, later_rating: i32) -> Outcome {
    if rating < later_rating {
        Outcome::Win
    } else if rating > later_rating {
        Outcome::Loss
    } else {
        Outcome::Undetermined
    }
}

/// The outcome that the rating alone gives `game` for the given player:
/// what the player's rating did between `game` and `reference`. For a
/// player who is not in `game` it is undetermined.
pub open spec fn infer(game: GameView, profile_id: i32, reference: GameView) -> Outcome {
    if game.get_player_by_profile_id(profile_id) is None {
        Outcome::Undetermined
    } else {
        rating_trend(rating_in(game, profile_id), reference_rating(game, profile_id, reference))
    }
}

/// The outcome of `game` for the given player: the explicit result where
/// the feed gives one, else what the rating gives. For a player who is not
/// in `game` it is undetermined.
pub open spec fn resolve(game: GameView, profile_id: i32, reference: GameView) -> Outcome {
    if game.get_player_by_profile_id(profile_id) is None {
        Outcome::Undetermined
    } else {
        match explicit_result(game, profile_id) {
            Some(true) => Outcome::Win,
            Some(false) => Outcome::Loss,
            None => infer(game, profile_id, reference),
        }
    }
}

/// The outcome under which a history records `game`. A game that is still
/// in progress carries no reliable result: whatever the feed says of it is
/// not read, and the rating alone decides. A finished game is resolved by
/// its explicit result, and by the rating where it has none.
pub open spec fn tracked_outcome(game: GameView, profile_id: i32, reference: GameView) -> Outcome {
    if game.in_progress() {
        infer(game, profile_id, reference)
    } else {
        resolve(game, profile_id, reference)
    }
}

/// Decides from the rating alone how `game` ended for the player
/// `profile_id`, with `future_game` as the reference.
pub fn infer_outcome(
    game: &MatchHistoryGameResponse,
    profile_id: i32,
    future_game: &MatchHistoryGameResponse,
) -> (outcome: Outcome)
    ensures
        outcome == infer(game@, profile_id, future_game@),
{
    let player = match game.get_player_by_profile_id(profile_id) {
        Some(player) => player,
        None => {
            return Outcome::Undetermined;
        },
    };
    let rating = player.get_rating();
    let future_rating = match future_game.get_player_by_profile_id(profile_id) {
        Some(player_in_future_game) => player_in_future_game.get_rating(),
        None => rating,
    };
    if rating > future_rating {
        Outcome::Loss
    } else if rating < future_rating {
        Outcome::Win
    } else {
        Outcome::Undetermined
    }
}

/// Decides how `game` ended for the player `profile_id`, with
/// `future_game` as the reference for the rating.
pub fn resolve_outcome(
    game: &MatchHistoryGameResponse,
    profile_id: i32,
    future_game: &MatchHistoryGameResponse,
) -> (outcome: Outcome)
    ensures
        outcome == resolve(game@, profile_id, future_game@),
        explicit_result(game@, profile_id) == Some(true) ==> outcome == Outcome::Win,
        explicit_result(game@, profile_id) == Some(false) ==> outcome == Outcome::Loss,
        game@.get_player_by_profile_id(profile_id) is Some && explicit_result(game@, profile_id)
            is None ==> outcome == rating_trend(
            rating_in(game@, profile_id),
            reference_rating(game@, profile_id, future_game@),
        ),
        game@.get_player_by_profile_id(profile_id) is None ==> outcome == Outcome::Undetermined,
{
    let player = match game.get_player_by_profile_id(profile_id) {
        Some(player) => player,
        None => {
            return Outcome::Undetermined;
        },
    };
    match player.won {
        Some(is_win) => if is_win {
            Outcome::Win
        } else {
            Outcome::Loss
        },
        None => infer_outcome(game, profile_id, future_game),
    }
}

/// The games of a list, as values.
pub open spec fn games_view(games: Seq<MatchHistoryGameResponse>) -> Seq<GameView> {
    games.map_values(|g: MatchHistoryGameResponse| g@)
}

/// The history against one opponent, as a value.
pub struct RecordView {
    pub profile_id: i32,
    pub wins_against: nat,
    pub losses_to: nat,
    pub games: Seq<GameView>,
    pub last_played_at: i64,
}

impl RecordView {
    /// The record of an opponent against whom nothing was played yet.
    pub open spec fn empty(profile_id: i32) -> RecordView {
        RecordView {
            profile_id,
            wins_against: 0,
            losses_to: 0,
            games: Seq::empty(),
            last_played_at: 0,
        }
    }

    /// A record counts no more results than it holds games, and was last
    /// played at the start of its last game.
    pub open spec fn wf(self) -> bool {
        &&& self.wins_against + self.losses_to <= self.games.len()
        &&& self.games.len() > 0 ==> self.last_played_at == self.games.last().started
    }

    /// The record after one more game against the opponent: the game is
    /// appended, and a win or a loss is counted once.
    pub open spec fn with_game(self, outcome: Outcome, game: GameView) -> RecordView {
        RecordView {
            profile_id: self.profile_id,
            wins_against: if outcome == Outcome::Win {
                self.wins_against + 1
            } else {
                self.wins_against
            },
            losses_to: if outcome == Outcome::Loss {
                self.losses_to + 1
            } else {
                self.losses_to
            },
            games: self.games.push(game),
            last_played_at: game.started,
        }
    }
}

/// The history of the tracked player against one opponent.
pub struct Record {
    pub profile_id: i32,
    pub wins_against: u64,
    pub losses_to: u64,
    pub games: Vec<MatchHistoryGameResponse>,
    pub last_played_at: i64,
}

impl View for Record {
    type V = RecordView;

    open spec fn view(&self) -> RecordView {
        RecordView {
            profile_id: self.profile_id,
            wins_against: self.wins_against as nat,
            losses_to: self.losses_to as nat,
            games: games_view(self.games@),
            last_played_at: self.last_played_at,
        }
    }
}

impl RecordView {
    /// The row of the record for a table with commas between the columns:
    /// the opponent's identity, the name without its commas, the number of
    /// games, the wins against the opponent and the losses, the opponent's
    /// rating, and the date of the last game.
    pub open spec fn row_text(self, player: PlayerView, date: Seq<char>) -> Seq<char> {
        signed_decimal(player.get_profile_id() as int) + seq![','] + player.get_name().filter(
            not_comma(),
        ) + seq![','] + decimal(self.games.len()) + seq![','] + decimal(self.wins_against)
            + seq![','] + decimal(self.losses_to) + seq![','] + signed_decimal(
            player.get_rating() as int,
        ) + seq![','] + date
    }

    /// The row of the record, dated by the start of its last game. There
    /// is none for a record without a game, nor where the start of the last
    /// game cannot be written as a date.
    pub open spec fn format(self, player: PlayerView) -> Option<Seq<char>> {
        if self.games.len() == 0 {
            None
        } else {
            match utc_date_text(self.games.last().started) {
                Some(date) => Some(self.row_text(player, date)),
                None => None,
            }
        }
    }
}

impl Record {
    /// Writes the row of the record with `date` as the date of the last
    /// game.
    pub fn format_with_date(&self, player: &MatchHistoryPlayerResponse, date: &str) -> (row:
        String)
        ensures
            row@ == self@.row_text(player@, date@),
    {
        proof {
            reveal_strlit(",");
        }
        assert(","@ =~= seq![',']);
        let player_name = player.get_name();
        let name = without_commas(player_name.as_str());
        let mut row = String::new();
        push_signed_decimal(&mut row, player.get_profile_id() as i64);
        row.append(",");
        row.append(name.as_str());
        row.append(",");
        push_decimal(&mut row, self.games.len() as u64);
        row.append(",");
        push_decimal(&mut row, self.wins_against);
        row.append(",");
        push_decimal(&mut row, self.losses_to);
        row.append(",");
        push_signed_decimal(&mut row, player.get_rating() as i64);
        row.append(",");
        row.append(date);
        assert(row@ =~= self@.row_text(player@, date@));
        row
    }

    /// Writes the row of the record for a table with commas between the
    /// columns, dated by the start of the last game.
    pub fn format(&self, player: &MatchHistoryPlayerResponse) -> (row: Option<String>)
        ensures
            text_view(row) == self@.format(player@),
    {
        if self.games.len() == 0 {
            return None;
        }
        let game = &self.games[self.games.len() - 1];
        match timestamp_to_date(game.started) {
            Some(date) => Some(self.format_with_date(player, date.as_str())),
            None => None,
        }
    }
}

/// The records of a table, as values.
pub open spec fn records_view(records: Map<i32, Record>) -> Map<i32, RecordView> {
    records.map_values(|r: Record| r@)
}

/// The players of a table, as values.
pub open spec fn roster_view(players: Map<i32, MatchHistoryPlayerResponse>) -> Map<
    i32,
    PlayerView,
> {
    players.map_values(|p: MatchHistoryPlayerResponse| p@)
}

/// What is known of one tracked player, as a value.
pub struct TrackerView {
    pub profile_id: i32,
    pub wins: nat,
    pub losses: nat,
    pub records: Map<i32, RecordView>,
    pub players: Map<i32, PlayerView>,
}

impl TrackerView {
    /// The state before any match was seen.
    pub open spec fn new(profile_id: i32) -> TrackerView {
        TrackerView { profile_id, wins: 0, losses: 0, records: Map::empty(), players: Map::empty() }
    }

    /// Every record is kept under its opponent's identity, holds at least
    /// one game and counts no more results than games; every remembered
    /// player is kept under that player's identity.
    pub open spec fn wf(self) -> bool {
        &&& forall|k: i32| #[trigger]
            self.records.contains_key(k) ==> {
                &&& self.records[k].wf()
                &&& self.records[k].profile_id == k
                &&& self.records[k].games.len() > 0
            }
        &&& forall|k: i32| #[trigger]
            self.players.contains_key(k) ==> self.players[k].get_profile_id() == k
    }

    /// The wins and losses against one opponent; both 0 where there is no
    /// record.
    pub open spec fn get_win_loss_record(self, other_profile_id: i32) -> (nat, nat) {
        if self.records.contains_key(other_profile_id) {
            (
                self.records[other_profile_id].wins_against,
                self.records[other_profile_id].losses_to,
            )
        } else {
            (0, 0)
        }
    }

    /// The record against one opponent; the empty record where there is
    /// none yet.
    pub open spec fn record_of(self, other_profile_id: i32) -> RecordView {
        if self.records.contains_key(other_profile_id) {
            self.records[other_profile_id]
        } else {
            RecordView::empty(other_profile_id)
        }
    }

    /// The state after `game` was added to the record of one opponent.
    pub open spec fn add_record(
        self,
        other_profile_id: i32,
        outcome: Outcome,
        game: GameView,
    ) -> TrackerView {
        TrackerView {
            records: self.records.insert(
                other_profile_id,
                self.record_of(other_profile_id).with_game(outcome, game),
            ),
            ..self
        }
    }

    /// The state after `game` was added to the records of the opponents
    /// `ids`, one after the other.
    pub open spec fn add_records(
        self,
        ids: Seq<i32>,
        outcome: Outcome,
        game: GameView,
    ) -> TrackerView
        decreases ids.len(),
    {
        if ids.len() == 0 {
            self
        } else {
            self.add_records(ids.drop_last(), outcome, game).add_record(ids.last(), outcome, game)
        }
    }

    /// The state after one match with the given outcome was counted in the
    /// totals.
    pub open spec fn count_outcome(self, outcome: Outcome) -> TrackerView {
        TrackerView {
            wins: if outcome == Outcome::Win {
                self.wins + 1
            } else {
                self.wins
            },
            losses: if outcome == Outcome::Loss {
                self.losses + 1
            } else {
                self.losses
            },
            ..self
        }
    }

    /// The state after the given players were remembered, one after the
    /// other, each under that player's identity; a later snapshot replaces an earlier
    /// one.
    pub open spec fn remember_players(self, seen: Seq<PlayerView>) -> TrackerView
        decreases seen.len(),
    {
        if seen.len() == 0 {
            self
        } else {
            let before = self.remember_players(seen.drop_last());
            TrackerView {
                players: before.players.insert(seen.last().get_profile_id(), seen.last()),
                ..before
            }
        }
    }

    /// The state after `game` was recorded with the given outcome. A game
    /// without the tracked player changes nothing. Otherwise the game goes
    /// to the record of every opposing player, the totals count it once,
    /// and every other player of the game is remembered.
    pub open spec fn record_match(self, game: GameView, outcome: Outcome) -> TrackerView {
        if game.get_player_by_profile_id(self.profile_id) is None {
            self
        } else {
            self.add_records(
                game.get_opposing_team_profile_ids(self.profile_id),
                outcome,
                game,
            ).count_outcome(outcome).remember_players(
                game.get_opposing_team(self.profile_id),
            ).remember_players(game.get_my_team(self.profile_id))
        }
    }

    /// The state after `game` was recorded with the outcome that
    /// `future_game` gives it.
    pub open spec fn process_match(self, game: GameView, future_game: GameView) -> TrackerView {
        self.record_match(game, tracked_outcome(game, self.profile_id, future_game))
    }

    /// The state after the matches of `matches` from index `from` on were
    /// recorded, the oldest (the last of the list) first.
    pub open spec fn track_from(self, matches: Seq<GameView>, from: int) -> TrackerView
        decreases matches.len() - from,
    {
        if from < 0 || from >= matches.len() {
            self
        } else {
            self.track_from(matches, from + 1).record_match(
                matches[from],
                outcome_at(self.profile_id, matches, from),
            )
        }
    }

    /// The state after a whole history, given most recent first, was
    /// recorded from its oldest match to its newest.
    pub open spec fn track_players(self, matches: Seq<GameView>) -> TrackerView {
        self.track_from(matches, 0)
    }
}

/// The reference of the match at index `i` of a history given most recent
/// first: the match that was played next, and for the newest match, which
/// has none, the match itself.
pub open spec fn reference_at(matches: Seq<GameView>, i: int) -> GameView {
    if i > 0 {
        matches[i - 1]
    } else {
        matches[i]
    }
}

/// The outcome of the match at index `i` of a history given most recent
/// first. The newest match, being its own reference, is undetermined
/// while it is in progress and whenever the feed gives no result for it.
pub open spec fn outcome_at(profile_id: i32, matches: Seq<GameView>, i: int) -> Outcome {
    tracked_outcome(matches[i], profile_id, reference_at(matches, i))
}

/// Adding a game to records changes neither the tracked identity, nor the
/// totals, nor the remembered players.
pub proof fn lemma_add_records_frame(
    state: TrackerView,
    ids: Seq<i32>,
    outcome: Outcome,
    game: GameView,
)
    ensures
        state.add_records(ids, outcome, game).profile_id == state.profile_id,
        state.add_records(ids, outcome, game).wins == state.wins,
        state.add_records(ids, outcome, game).losses == state.losses,
        state.add_records(ids, outcome, game).players == state.players,
    decreases ids.len(),
{
    if ids.len() > 0 {
        lemma_add_records_frame(state, ids.drop_last(), outcome, game);
    }
}

/// Remembering players changes neither the tracked identity, nor the
/// totals, nor the records.
pub proof fn lemma_remember_players_frame(state: TrackerView, seen: Seq<PlayerView>)
    ensures
        state.remember_players(seen).profile_id == state.profile_id,
        state.remember_players(seen).wins == state.wins,
        state.remember_players(seen).losses == state.losses,
        state.remember_players(seen).records == state.records,
    decreases seen.len(),
{
    if seen.len() > 0 {
        lemma_remember_players_frame(state, seen.drop_last());
    }
}

/// Recording a match keeps the tracked identity and counts the match at
/// most once in the totals: once where the tracked player took part and
/// the outcome is a win or a loss.
pub proof fn lemma_record_match_totals(state: TrackerView, game: GameView, outcome: Outcome)
    ensures
        state.record_match(game, outcome).profile_id == state.profile_id,
        state.record_match(game, outcome).wins == state.wins + if game.get_player_by_profile_id(
            state.profile_id,
        ) is Some && outcome == Outcome::Win {
            1nat
        } else {
            0nat
        },
        state.record_match(game, outcome).losses == state.losses
            + if game.get_player_by_profile_id(state.profile_id) is Some && outcome
            == Outcome::Loss {
            1nat
        } else {
            0nat
        },
{
    if game.get_player_by_profile_id(state.profile_id) is Some {
        let ids = game.get_opposing_team_profile_ids(state.profile_id);
        let added = state.add_records(ids, outcome, game);
        lemma_add_records_frame(state, ids, outcome, game);
        let counted = added.count_outcome(outcome);
        let first = counted.remember_players(game.get_opposing_team(state.profile_id));
        lemma_remember_players_frame(counted, game.get_opposing_team(state.profile_id));
        lemma_remember_players_frame(first, game.get_my_team(state.profile_id));
    }
}

/// The win/loss history of one tracked player.
pub struct PlayerTracker {
    pub profile_id: i32,
    pub wins: u64,
    pub losses: u64,
    pub records: HashMap<i32, Record>,
    pub players: HashMap<i32, MatchHistoryPlayerResponse>,
}

impl View for PlayerTracker {
    type V = TrackerView;

    open spec fn view(&self) -> TrackerView {
        TrackerView {
            profile_id: self.profile_id,
            wins: self.wins as nat,
            losses: self.losses as nat,
            records: records_view(self.records@),
            players: roster_view(self.players@),
        }
    }
}

/// Adding a game to one record keeps every record well formed.
pub proof fn lemma_add_record_wf(
    state: TrackerView,
    other_profile_id: i32,
    outcome: Outcome,
    game: GameView,
)
    requires
        state.wf(),
    ensures
        state.add_record(other_profile_id, outcome, game).wf(),
{
}

impl PlayerTracker {
    /// A tracker for the player `profile_id` that has seen no match yet.
    pub fn new(profile_id: i32) -> (tracker: PlayerTracker)
        ensures
            tracker@ == TrackerView::new(profile_id),
            tracker@.wf(),
    {
        let tracker = PlayerTracker {
            profile_id,
            wins: 0,
            losses: 0,
            records: HashMap::new(),
            players: HashMap::new(),
        };
        assert(tracker@.records =~= Map::empty());
        assert(tracker@.players =~= Map::empty());
        tracker
    }

    /// Appends `game` to the record of the opponent `other_profile_id`,
    /// which is created where there is none, and counts a win or a loss
    /// there. The totals of the tracker are not touched.
    pub fn add_record(
        &mut self,
        other_profile_id: i32,
        outcome: Outcome,
        game: &MatchHistoryGameResponse,
    )
        requires
            old(self)@.wf(),
        ensures
            final(self)@ == old(self)@.add_record(other_profile_id, outcome, game@),
            final(self)@.wf(),
    {
        let ghost before = self@;
        let ghost table = self.records@;
        let mut record = match self.records.remove(&other_profile_id) {
            Some(record) => record,
            None => Record {
                profile_id: other_profile_id,
                wins_against: 0,
                losses_to: 0,
                games: Vec::new(),
                last_played_at: 0,
            },
        };
        assert(record@ == before.record_of(other_profile_id)) by {
            if table.contains_key(other_profile_id) {
                assert(before.records.contains_key(other_profile_id));
            } else {
                assert(record@.games =~= Seq::empty());
            }
        }
        assert(record@.wf()) by {
            if table.contains_key(other_profile_id) {
                assert(before.records.contains_key(other_profile_id));
            }
        }
        let ghost previous = record@;
        record.games.push(game.clone());
        record.last_played_at = game.started;
        assert(games_view(record.games@) =~= previous.games.push(game@));
        assert(previous.games.len() + 1 == record.games.len() <= usize::MAX);
        match outcome {
            Outcome::Win => {
                record.wins_against = record.wins_against + 1;
            },
            Outcome::Loss => {
                record.losses_to = record.losses_to + 1;
            },
            Outcome::Undetermined => {},
        }
        assert(record@ == previous.with_game(outcome, game@));
        self.records.insert(other_profile_id, record);
        assert(self@.records =~= before.records.insert(
            other_profile_id,
            previous.with_game(outcome, game@),
        ));
        proof {
            lemma_add_record_wf(before, other_profile_id, outcome, game@);
        }
    }

    /// Remembers the latest snapshot of each of the given players.
    fn remember_players(&mut self, seen: &Vec<&MatchHistoryPlayerResponse>)
        requires
            old(self)@.wf(),
        ensures
            final(self)@ == old(self)@.remember_players(player_refs_view(seen@)),
            final(self)@.wf(),
    {
        let ghost before = self@;
        let ghost views = player_refs_view(seen@);
        let mut i: usize = 0;
        while i < seen.len()
            invariant
                i <= seen.len(),
                views == player_refs_view(seen@),
                self@.wf(),
                self@ == before.remember_players(views.take(i as int)),
            decreases seen.len() - i,
        {
            let ghost previous = self@;
            assert(views.take(i + 1).drop_last() =~= views.take(i as int));
            let player = seen[i];
            assert(views[i as int] == player@);
            self.players.insert(player.get_profile_id(), player.clone());
            assert(self@.players =~= previous.players.insert(
                views[i as int].get_profile_id(),
                views[i as int],
            ));
            assert(self@.records == previous.records);
            i += 1;
        }
        assert(views.take(i as int) =~= views);
    }

    /// Records `game` with the given outcome. A game without the tracked
    /// player changes nothing. Otherwise the game is appended to the record
    /// of every opposing player, where a win or a loss is counted too; the
    /// totals count the game once; and every other player of the game is
    /// remembered.
    pub fn record_match(&mut self, game: &MatchHistoryGameResponse, outcome: Outcome)
        requires
            old(self)@.wf(),
            old(self).wins < u64::MAX,
            old(self).losses < u64::MAX,
        ensures
            final(self)@ == old(self)@.record_match(game@, outcome),
            final(self)@.wf(),
    {
        if game.get_player_by_profile_id(self.profile_id).is_none() {
            return ;
        }
        let ghost before = self@;
        let other_team_profile_ids = game.get_opposing_team_profile_ids(self.profile_id);
        let mut i: usize = 0;
        while i < other_team_profile_ids.len()
            invariant
                i <= other_team_profile_ids.len(),
                self@.wf(),
                self@ == before.add_records(
                    other_team_profile_ids@.take(i as int),
                    outcome,
                    game@,
                ),
                self.profile_id == before.profile_id,
                self.wins == before.wins,
                self.losses == before.losses,
            decreases other_team_profile_ids.len() - i,
        {
            assert(other_team_profile_ids@.take(i + 1).drop_last()
                =~= other_team_profile_ids@.take(i as int));
            self.add_record(other_team_profile_ids[i], outcome, game);
            i += 1;
        }
        assert(other_team_profile_ids@.take(i as int) =~= other_team_profile_ids@);
        let ghost added = self@;
        match outcome {
            Outcome::Win => {
                self.wins = self.wins + 1;
            },
            Outcome::Loss => {
                self.losses = self.losses + 1;
            },
            Outcome::Undetermined => {},
        }
        assert(self@.records == added.records && self@.players == added.players);
        let other_team = game.get_opposing_team(self.profile_id);
        self.remember_players(&other_team);
        proof {
            lemma_remember_players_frame(
                before.add_records(other_team_profile_ids@, outcome, game@).count_outcome(
                    outcome,
                ),
                player_refs_view(other_team@),
            );
        }
        let my_team = game.get_my_team(self.profile_id);
        self.remember_players(&my_team);
    }

    /// Records `game` with the outcome that `future_game`, the next match
    /// that the tracked player played, gives it: for a finished game the
    /// explicit result, or what the rating did where there is none; for a
    /// game in progress, of which no result is believed, what the rating
    /// did.
    pub fn process_match(
        &mut self,
        game: &MatchHistoryGameResponse,
        future_game: &MatchHistoryGameResponse,
    )
        requires
            old(self)@.wf(),
            old(self).wins < u64::MAX,
            old(self).losses < u64::MAX,
        ensures
            final(self)@ == old(self)@.process_match(game@, future_game@),
            final(self)@.wf(),
    {
        let outcome = if game.finished.is_none() {
            infer_outcome(game, self.profile_id, future_game)
        } else {
            resolve_outcome(game, self.profile_id, future_game)
        };
        self.record_match(game, outcome);
    }

    /// Records a whole match history, given most recent first, from its
    /// oldest match to its newest. Each match takes the next one played as
    /// its reference; the newest is its own reference, so that it is
    /// undetermined while it is in progress and whenever the feed gives no
    /// result for it.
    pub fn track_players(&mut self, match_history: &Vec<MatchHistoryGameResponse>)
        requires
            old(self)@.wf(),
            old(self).wins + old(self).losses + match_history.len() <= u64::MAX,
        ensures
            final(self)@ == old(self)@.track_players(games_view(match_history@)),
            final(self)@.wf(),
            forall|k: i32| #[trigger]
                final(self)@.records.contains_key(k) ==> final(self)@.records[k].wins_against
                    + final(self)@.records[k].losses_to <= final(self)@.records[k].games.len(),
    {
        let ghost before = self@;
        let ghost matches = games_view(match_history@);
        let mut i: usize = match_history.len();
        while i > 0
            invariant
                i <= match_history.len(),
                matches == games_view(match_history@),
                self@.wf(),
                self.profile_id == before.profile_id,
                self@ == before.track_from(matches, i as int),
                self.wins + self.losses + i <= u64::MAX,
            decreases i,
        {
            i -= 1;
            proof {
                lemma_record_match_totals(
                    self@,
                    matches[i as int],
                    outcome_at(before.profile_id, matches, i as int),
                );
            }
            let future_game = if i > 0 {
                &match_history[i - 1]
            } else {
                &match_history[i]
            };
            self.process_match(&match_history[i], future_game);
        }
    }

    /// The wins against and the losses to one opponent; both 0 for an
    /// opponent without a record.
    pub fn get_win_loss_record(&self, other_profile_id: i32) -> (record: (u64, u64))
        ensures
            (record.0 as nat, record.1 as nat) == self@.get_win_loss_record(other_profile_id),
    {
        match self.records.get(&other_profile_id) {
            None => (0, 0),
            Some(record) => (record.wins_against, record.losses_to),
        }
    }
}

} // verus!

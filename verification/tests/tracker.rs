use aoe2_tracker::fetch::{MatchHistoryGameResponse, MatchHistoryPlayerResponse};
use aoe2_tracker::player_tracker::{
    infer_outcome, resolve_outcome, Outcome, PlayerTracker, Record,
};

fn player(
    profile_id: i32,
    team: i32,
    rating: Option<i32>,
    won: Option<bool>,
) -> MatchHistoryPlayerResponse {
    MatchHistoryPlayerResponse {
        profile_id: Some(profile_id),
        steam_id: None,
        team: Some(team),
        name: Some(format!("player{}", profile_id)),
        rating,
        won,
    }
}

fn game(
    match_id: &str,
    started: i64,
    finished: Option<i32>,
    players: Vec<MatchHistoryPlayerResponse>,
) -> MatchHistoryGameResponse {
    MatchHistoryGameResponse {
        match_id: match_id.to_string(),
        num_players: Some(players.len() as i32),
        ranked: true,
        started,
        leaderboard_id: Some(3),
        lobby_id: None,
        match_uuid: None,
        version: None,
        finished,
        players,
    }
}

fn duel(match_id: &str, started: i64, mine: (Option<i32>, Option<bool>), other: i32) -> MatchHistoryGameResponse {
    game(
        match_id,
        started,
        Some(1),
        vec![player(1, 1, mine.0, mine.1), player(other, 2, Some(900), None)],
    )
}

fn counters_are_bounded(tracker: &PlayerTracker) -> bool {
    tracker
        .records
        .values()
        .all(|r| r.wins_against + r.losses_to <= r.games.len() as u64)
}

#[test]
fn rating_rise_into_the_next_match_is_a_win() {
    let a = game(
        "a",
        100,
        Some(150),
        vec![player(1, 1, Some(1000), None), player(2, 2, Some(990), None)],
    );
    let b = game(
        "b",
        200,
        Some(250),
        vec![player(1, 1, Some(1020), None), player(3, 2, Some(1005), None)],
    );
    let mut tracker = PlayerTracker::new(1);
    tracker.track_players(&vec![b, a]);
    assert_eq!(tracker.get_win_loss_record(2), (1, 0));
    assert_eq!(tracker.records[&2].wins_against, 1);
    assert_eq!(tracker.records[&2].games.len(), 1);
    assert_eq!(tracker.records[&2].last_played_at, 100);
    assert_eq!(tracker.get_win_loss_record(3), (0, 0));
    assert_eq!(tracker.records[&3].games.len(), 1);
    assert_eq!(tracker.wins, 1);
    assert_eq!(tracker.losses, 0);
}

#[test]
fn team_loss_counts_once_in_the_totals_and_once_per_opponent() {
    let m = game(
        "m",
        100,
        Some(160),
        vec![
            player(1, 1, Some(1000), Some(false)),
            player(5, 1, Some(1100), Some(false)),
            player(10, 2, Some(1200), Some(true)),
            player(11, 2, Some(1300), Some(true)),
        ],
    );
    let mut tracker = PlayerTracker::new(1);
    tracker.track_players(&vec![m]);
    assert_eq!(tracker.get_win_loss_record(10), (0, 1));
    assert_eq!(tracker.get_win_loss_record(11), (0, 1));
    assert_eq!(tracker.losses, 1);
    assert_eq!(tracker.wins, 0);
    assert_eq!(tracker.records.len(), 2);
    assert!(tracker.players.contains_key(&5));
    assert!(tracker.players.contains_key(&10));
    assert!(tracker.players.contains_key(&11));
    assert!(!tracker.players.contains_key(&1));
}

#[test]
fn explicit_result_beats_the_rating() {
    let lost = game(
        "a",
        100,
        Some(150),
        vec![player(1, 1, Some(1000), Some(false)), player(2, 2, Some(990), Some(true))],
    );
    let later = game("b", 200, Some(250), vec![player(1, 1, Some(1500), None)]);
    assert_eq!(resolve_outcome(&lost, 1, &later), Outcome::Loss);
    let won = game(
        "c",
        100,
        Some(150),
        vec![player(1, 1, Some(1000), Some(true)), player(2, 2, Some(990), Some(false))],
    );
    let lower = game("d", 200, Some(250), vec![player(1, 1, Some(10), None)]);
    assert_eq!(resolve_outcome(&won, 1, &lower), Outcome::Win);
}

#[test]
fn rating_trend_decides_without_a_result() {
    let now = duel("a", 100, (Some(1000), None), 2);
    let higher = duel("b", 200, (Some(1001), None), 2);
    let lower = duel("c", 200, (Some(999), None), 2);
    let same = duel("d", 200, (Some(1000), None), 2);
    assert_eq!(resolve_outcome(&now, 1, &higher), Outcome::Win);
    assert_eq!(resolve_outcome(&now, 1, &lower), Outcome::Loss);
    assert_eq!(resolve_outcome(&now, 1, &same), Outcome::Undetermined);
    assert_eq!(resolve_outcome(&now, 1, &now), Outcome::Undetermined);
}

#[test]
fn missing_rating_compares_as_zero() {
    let unknown = duel("a", 100, (None, None), 2);
    let rated = duel("b", 200, (Some(5), None), 2);
    let negative = duel("c", 200, (Some(-5), None), 2);
    assert_eq!(resolve_outcome(&unknown, 1, &rated), Outcome::Win);
    assert_eq!(resolve_outcome(&unknown, 1, &negative), Outcome::Loss);
    assert_eq!(resolve_outcome(&rated, 1, &unknown), Outcome::Loss);
    assert_eq!(resolve_outcome(&unknown, 1, &unknown), Outcome::Undetermined);
}

#[test]
fn reference_without_the_player_falls_back_to_the_own_rating() {
    let now = duel("a", 100, (Some(1000), None), 2);
    let strangers = game("b", 200, Some(1), vec![player(7, 1, Some(3000), None)]);
    assert_eq!(resolve_outcome(&now, 1, &strangers), Outcome::Undetermined);
}

#[test]
fn game_without_the_player_is_undetermined_and_skipped() {
    let strangers = game(
        "s",
        100,
        Some(1),
        vec![player(7, 1, Some(1000), Some(true)), player(8, 2, Some(1000), Some(false))],
    );
    let later = duel("b", 200, (Some(1000), Some(true)), 2);
    assert_eq!(resolve_outcome(&strangers, 1, &later), Outcome::Undetermined);
    let mut tracker = PlayerTracker::new(1);
    tracker.track_players(&vec![later, strangers]);
    assert_eq!(tracker.wins, 1);
    assert_eq!(tracker.losses, 0);
    assert_eq!(tracker.records.len(), 1);
    assert_eq!(tracker.get_win_loss_record(2), (1, 0));
    assert!(!tracker.players.contains_key(&7));
    assert!(!tracker.players.contains_key(&8));
    assert_eq!(tracker.get_win_loss_record(8), (0, 0));
}

#[test]
fn undetermined_game_is_kept_and_not_counted() {
    let a = duel("a", 100, (Some(1000), None), 2);
    let b = duel("b", 200, (Some(1000), None), 2);
    let mut tracker = PlayerTracker::new(1);
    tracker.track_players(&vec![b, a]);
    assert_eq!(tracker.get_win_loss_record(2), (0, 0));
    assert_eq!(tracker.records[&2].games.len(), 2);
    assert_eq!(tracker.records[&2].games[0].match_id, "a");
    assert_eq!(tracker.records[&2].games[1].match_id, "b");
    assert_eq!(tracker.records[&2].last_played_at, 200);
    assert_eq!(tracker.wins, 0);
    assert_eq!(tracker.losses, 0);
    assert!(tracker.players.contains_key(&2));
    assert!(counters_are_bounded(&tracker));
}

#[test]
fn newest_game_in_progress_is_undetermined_whatever_it_says() {
    let older = duel("a", 100, (Some(1000), None), 2);
    let mut running = duel("b", 200, (Some(1020), Some(true)), 3);
    running.finished = None;
    let mut tracker = PlayerTracker::new(1);
    tracker.track_players(&vec![running, older]);
    assert_eq!(tracker.get_win_loss_record(2), (1, 0));
    assert_eq!(tracker.get_win_loss_record(3), (0, 0));
    assert_eq!(tracker.records[&3].games.len(), 1);
    assert_eq!(tracker.wins, 1);
    assert!(tracker.players.contains_key(&3));
}

#[test]
fn older_game_in_progress_is_decided_by_the_rating_alone() {
    let mut unfinished = duel("a", 100, (Some(1000), Some(false)), 2);
    unfinished.finished = None;
    let newest = duel("b", 200, (Some(1020), None), 3);
    let mut tracker = PlayerTracker::new(1);
    tracker.track_players(&vec![newest, unfinished.clone()]);
    assert_eq!(tracker.get_win_loss_record(2), (1, 0));
    assert_eq!(tracker.wins, 1);
    assert_eq!(tracker.losses, 0);
    let same = duel("c", 200, (Some(1000), None), 3);
    let mut flat = PlayerTracker::new(1);
    flat.process_match(&unfinished, &same);
    assert_eq!(flat.get_win_loss_record(2), (0, 0));
    assert_eq!(flat.records[&2].games.len(), 1);
    assert_eq!(resolve_outcome(&unfinished, 1, &same), Outcome::Loss);
    assert_eq!(infer_outcome(&unfinished, 1, &same), Outcome::Undetermined);
    assert_eq!(infer_outcome(&same, 1, &unfinished), Outcome::Undetermined);
    let lower = duel("d", 200, (Some(999), Some(true)), 3);
    assert_eq!(infer_outcome(&unfinished, 1, &lower), Outcome::Loss);
    let strangers = game("s", 1, Some(1), vec![player(7, 1, Some(1), None)]);
    assert_eq!(infer_outcome(&strangers, 1, &lower), Outcome::Undetermined);
}

#[test]
fn newest_finished_game_with_a_result_is_counted() {
    let older = duel("a", 100, (Some(1000), None), 2);
    let newest = duel("b", 200, (Some(990), Some(true)), 3);
    let mut tracker = PlayerTracker::new(1);
    tracker.track_players(&vec![newest, older]);
    assert_eq!(tracker.get_win_loss_record(2), (0, 1));
    assert_eq!(tracker.get_win_loss_record(3), (1, 0));
    assert_eq!(tracker.wins, 1);
    assert_eq!(tracker.losses, 1);
}

#[test]
fn only_game_without_a_result_is_undetermined() {
    let only = duel("a", 100, (Some(1000), None), 2);
    let mut tracker = PlayerTracker::new(1);
    tracker.track_players(&vec![only]);
    assert_eq!(tracker.get_win_loss_record(2), (0, 0));
    assert_eq!(tracker.records[&2].games.len(), 1);
    assert_eq!(tracker.wins + tracker.losses, 0);
}

#[test]
fn empty_history_changes_nothing() {
    let mut tracker = PlayerTracker::new(1);
    tracker.track_players(&vec![]);
    assert_eq!(tracker.profile_id, 1);
    assert_eq!(tracker.wins, 0);
    assert_eq!(tracker.losses, 0);
    assert!(tracker.records.is_empty());
    assert!(tracker.players.is_empty());
}

#[test]
fn opponents_are_all_who_are_on_another_team() {
    let m = game(
        "m",
        100,
        Some(1),
        vec![
            player(20, 3, Some(1), Some(false)),
            player(1, 7, Some(1), Some(true)),
            player(21, 0, Some(1), Some(false)),
            player(22, 7, Some(1), Some(true)),
        ],
    );
    assert_eq!(m.get_opposing_team_profile_ids(1), vec![20, 21]);
    let mut tracker = PlayerTracker::new(1);
    tracker.track_players(&vec![m]);
    assert_eq!(tracker.get_win_loss_record(20), (1, 0));
    assert_eq!(tracker.get_win_loss_record(21), (1, 0));
    assert_eq!(tracker.get_win_loss_record(22), (0, 0));
    assert!(!tracker.records.contains_key(&22));
    assert!(tracker.players.contains_key(&22));
    assert_eq!(tracker.wins, 1);
}

#[test]
fn later_snapshot_of_a_player_replaces_the_earlier_one() {
    let a = game(
        "a",
        100,
        Some(1),
        vec![player(1, 1, Some(1000), Some(true)), player(2, 2, Some(900), Some(false))],
    );
    let b = game(
        "b",
        200,
        Some(1),
        vec![player(1, 1, Some(1010), Some(false)), player(2, 2, Some(950), Some(true))],
    );
    let mut tracker = PlayerTracker::new(1);
    tracker.track_players(&vec![b, a]);
    assert_eq!(tracker.players[&2].rating, Some(950));
    assert_eq!(tracker.get_win_loss_record(2), (1, 1));
    assert_eq!(tracker.records[&2].last_played_at, 200);
}

#[test]
fn counters_never_exceed_the_games_held() {
    let history = vec![
        duel("e", 500, (Some(1000), None), 2),
        duel("d", 400, (Some(1000), None), 3),
        duel("c", 300, (Some(980), Some(false)), 2),
        duel("b", 200, (Some(990), None), 2),
        duel("a", 100, (Some(1000), None), 3),
    ];
    let mut tracker = PlayerTracker::new(1);
    tracker.track_players(&history);
    assert!(counters_are_bounded(&tracker));
    assert_eq!(tracker.get_win_loss_record(2), (0, 2));
    assert_eq!(tracker.records[&2].games.len(), 3);
    assert_eq!(tracker.get_win_loss_record(3), (0, 1));
    assert_eq!(tracker.records[&3].games.len(), 2);
    assert_eq!(tracker.wins, 0);
    assert_eq!(tracker.losses, 3);
}

#[test]
fn two_halves_tracked_apart_add_up_to_the_whole() {
    let a = duel("a", 100, (Some(1000), Some(true)), 2);
    let b = duel("b", 200, (Some(1010), Some(false)), 3);
    let c = duel("c", 300, (Some(1000), None), 2);
    let d = duel("d", 400, (Some(1015), Some(true)), 4);
    let mut whole = PlayerTracker::new(1);
    whole.track_players(&vec![d.clone(), c.clone(), b.clone(), a.clone()]);
    let mut older = PlayerTracker::new(1);
    older.track_players(&vec![b.clone(), a.clone()]);
    let mut newer = PlayerTracker::new(1);
    newer.track_players(&vec![d.clone(), c.clone()]);
    assert_eq!(whole.wins, older.wins + newer.wins);
    assert_eq!(whole.losses, older.losses + newer.losses);
    for id in [2, 3, 4] {
        let (w, l) = whole.get_win_loss_record(id);
        let (w1, l1) = older.get_win_loss_record(id);
        let (w2, l2) = newer.get_win_loss_record(id);
        assert_eq!((w, l), (w1 + w2, l1 + l2));
    }
    assert_eq!(whole.get_win_loss_record(2), (2, 0));
    assert_eq!(whole.records[&2].games.len(), 2);
    let mut in_steps = PlayerTracker::new(1);
    in_steps.track_players(&vec![b, a]);
    in_steps.track_players(&vec![d, c]);
    assert_eq!(in_steps.wins, whole.wins);
    assert_eq!(in_steps.losses, whole.losses);
    assert_eq!(in_steps.get_win_loss_record(2), whole.get_win_loss_record(2));
    assert_eq!(in_steps.records[&2].games.len(), 2);
    assert_eq!(in_steps.records[&2].last_played_at, 300);
}

#[test]
fn add_record_creates_the_record_on_first_use() {
    let g = duel("a", 100, (Some(1000), None), 2);
    let h = duel("b", 200, (Some(1000), None), 2);
    let mut tracker = PlayerTracker::new(1);
    assert_eq!(tracker.get_win_loss_record(2), (0, 0));
    tracker.add_record(2, Outcome::Win, &g);
    assert_eq!(tracker.get_win_loss_record(2), (1, 0));
    assert_eq!(tracker.records[&2].profile_id, 2);
    tracker.add_record(2, Outcome::Loss, &h);
    tracker.add_record(2, Outcome::Undetermined, &h);
    assert_eq!(tracker.get_win_loss_record(2), (1, 1));
    assert_eq!(tracker.records[&2].games.len(), 3);
    assert_eq!(tracker.records[&2].last_played_at, 200);
    assert_eq!(tracker.wins, 0);
    assert_eq!(tracker.losses, 0);
}

#[test]
fn process_match_uses_the_future_game_as_reference() {
    let g = duel("a", 100, (Some(1000), None), 2);
    let up = duel("b", 200, (Some(1001), None), 3);
    let mut tracker = PlayerTracker::new(1);
    tracker.process_match(&g, &up);
    assert_eq!(tracker.get_win_loss_record(2), (1, 0));
    assert_eq!(tracker.wins, 1);
    tracker.record_match(&up, Outcome::Loss);
    assert_eq!(tracker.get_win_loss_record(3), (0, 1));
    assert_eq!(tracker.losses, 1);
}

#[test]
fn record_row_lists_the_columns_in_order() {
    let mut opponent = player(2, 2, Some(1234), None);
    opponent.name = Some("Do,e, J".to_string());
    let record = Record {
        profile_id: 2,
        wins_against: 3,
        losses_to: 1,
        games: vec![
            duel("a", 0, (None, None), 2),
            duel("b", 1431648000, (None, None), 2),
        ],
        last_played_at: 1431648000,
    };
    assert_eq!(
        record.format(&opponent),
        Some("2,Doe J,2,3,1,1234,2015-05-15 00:00:00".to_string())
    );
    assert_eq!(
        record.format_with_date(&opponent, "today"),
        "2,Doe J,2,3,1,1234,today"
    );
}

#[test]
fn record_without_a_game_or_a_date_has_no_row() {
    let opponent = player(2, 2, Some(1234), None);
    let empty = Record {
        profile_id: 2,
        wins_against: 0,
        losses_to: 0,
        games: vec![],
        last_played_at: 0,
    };
    assert_eq!(empty.format(&opponent), None);
    let undated = Record {
        profile_id: 2,
        wins_against: 0,
        losses_to: 0,
        games: vec![duel("a", i64::MAX, (None, None), 2)],
        last_played_at: i64::MAX,
    };
    assert_eq!(undated.format(&opponent), None);
}

#[test]
fn record_row_of_a_nameless_player_with_negative_numbers() {
    let nobody = MatchHistoryPlayerResponse {
        profile_id: Some(-7),
        steam_id: None,
        team: None,
        name: None,
        rating: Some(-12),
        won: None,
    };
    let record = Record {
        profile_id: -7,
        wins_against: 0,
        losses_to: 10,
        games: vec![duel("a", 86399, (None, None), 2)],
        last_played_at: 86399,
    };
    assert_eq!(
        record.format(&nobody),
        Some("-7,,1,0,10,-12,1970-01-01 23:59:59".to_string())
    );
}

use aoe2_tracker::decimal::{parse_u64, push_decimal, push_signed_decimal, u64_to_decimal};
use aoe2_tracker::error::RuntimeError;
use aoe2_tracker::fetch::{LeaderboardId, MatchHistoryGameResponse};
use aoe2_tracker::format::{
    get_leaderboard_id_from_name, get_opposite_leaderboard_id, leaderboard_id_to_name,
    ratings_to_string, timestamp_to_date, without_commas,
};
use aoe2_tracker::lookup::{retain_leaderboard, track_history};

fn queued(match_id: &str, leaderboard_id: Option<i32>) -> MatchHistoryGameResponse {
    let mut game = MatchHistoryGameResponse::default();
    game.match_id = match_id.to_string();
    game.leaderboard_id = leaderboard_id;
    game
}

fn signed(n: i64) -> String {
    let mut text = String::from("x");
    push_signed_decimal(&mut text, n);
    text
}

#[test]
fn timestamp_is_written_as_utc_date() {
    assert_eq!(timestamp_to_date(0), Some("1970-01-01 00:00:00".to_string()));
    assert_eq!(timestamp_to_date(1431648000), Some("2015-05-15 00:00:00".to_string()));
    assert_eq!(timestamp_to_date(1603929599), Some("2020-10-28 23:59:59".to_string()));
    assert_eq!(timestamp_to_date(-1), Some("1969-12-31 23:59:59".to_string()));
    assert_eq!(timestamp_to_date(951782400), Some("2000-02-29 00:00:00".to_string()));
}

#[test]
fn timestamp_out_of_range_has_no_date() {
    assert_eq!(timestamp_to_date(i64::MAX), None);
    assert_eq!(timestamp_to_date(i64::MIN), None);
    assert_eq!(timestamp_to_date(8210266876800), None);
    assert_eq!(timestamp_to_date(-8334601228801), None);
}

#[test]
fn first_and_last_moment_of_the_calendar_have_dates() {
    assert_eq!(
        timestamp_to_date(8210266876799),
        Some("+262142-12-31 23:59:59".to_string())
    );
    assert_eq!(
        timestamp_to_date(-8334601228800),
        Some("-262143-01-01 00:00:00".to_string())
    );
    assert_eq!(timestamp_to_date(253402300799), Some("9999-12-31 23:59:59".to_string()));
    assert_eq!(timestamp_to_date(253402300800), Some("+10000-01-01 00:00:00".to_string()));
    assert_eq!(timestamp_to_date(-62167219200), Some("0000-01-01 00:00:00".to_string()));
    assert_eq!(timestamp_to_date(-62167219201), Some("-0001-12-31 23:59:59".to_string()));
}

#[test]
fn queues_have_names() {
    assert_eq!(leaderboard_id_to_name(LeaderboardId::RankedSolo), "solo");
    assert_eq!(leaderboard_id_to_name(LeaderboardId::RankedTeam), "team");
    assert_eq!(leaderboard_id_to_name(LeaderboardId::Unranked), "team");
    assert_eq!(get_leaderboard_id_from_name("solo"), LeaderboardId::RankedSolo);
    assert_eq!(get_leaderboard_id_from_name("team"), LeaderboardId::RankedTeam);
    assert_eq!(get_leaderboard_id_from_name(""), LeaderboardId::RankedTeam);
    assert_eq!(get_leaderboard_id_from_name("Solo"), LeaderboardId::RankedTeam);
    assert_eq!(get_leaderboard_id_from_name("solo "), LeaderboardId::RankedTeam);
    assert_eq!(get_opposite_leaderboard_id(LeaderboardId::RankedSolo), LeaderboardId::RankedTeam);
    assert_eq!(get_opposite_leaderboard_id(LeaderboardId::RankedTeam), LeaderboardId::RankedSolo);
    assert_eq!(get_opposite_leaderboard_id(LeaderboardId::Unranked), LeaderboardId::RankedSolo);
}

#[test]
fn ratings_are_written_in_brackets() {
    assert_eq!(
        ratings_to_string("solo", 1200, "team", 1350),
        "(solo elo in game=1200, current team elo=1350)"
    );
    assert_eq!(
        ratings_to_string("team", 0, "solo", -1),
        "(team elo in game=0, current solo elo=-1)"
    );
    assert_eq!(
        ratings_to_string("", i32::MIN, "", i32::MAX),
        "( elo in game=-2147483648, current  elo=2147483647)"
    );
}

#[test]
fn commas_are_taken_out_of_names() {
    assert_eq!(without_commas("a,b,,c"), "abc");
    assert_eq!(without_commas(",,,"), "");
    assert_eq!(without_commas(""), "");
    assert_eq!(without_commas("no comma"), "no comma");
    assert_eq!(without_commas("\u{fc}ml\u{e4}ut, \u{4e16}\u{754c},"), "\u{fc}ml\u{e4}ut \u{4e16}\u{754c}");
}

#[test]
fn numbers_are_written_in_decimal() {
    assert_eq!(u64_to_decimal(0), "0");
    assert_eq!(u64_to_decimal(9), "9");
    assert_eq!(u64_to_decimal(10), "10");
    assert_eq!(u64_to_decimal(1234567890), "1234567890");
    assert_eq!(u64_to_decimal(u64::MAX), "18446744073709551615");
    assert_eq!(signed(0), "x0");
    assert_eq!(signed(-1), "x-1");
    assert_eq!(signed(42), "x42");
    assert_eq!(signed(i64::MIN), "x-9223372036854775808");
    assert_eq!(signed(i64::MAX), "x9223372036854775807");
    let mut text = String::from("n=");
    push_decimal(&mut text, 705);
    assert_eq!(text, "n=705");
}

#[test]
fn decimal_text_is_read_back() {
    assert_eq!(parse_u64("0"), Some(0));
    assert_eq!(parse_u64("42"), Some(42));
    assert_eq!(parse_u64("0042"), Some(42));
    assert_eq!(parse_u64("18446744073709551615"), Some(u64::MAX));
    assert_eq!(parse_u64("18446744073709551616"), None);
    assert_eq!(parse_u64("99999999999999999999999"), None);
    assert_eq!(parse_u64(""), None);
    assert_eq!(parse_u64("+1"), None);
    assert_eq!(parse_u64("-1"), None);
    assert_eq!(parse_u64("1 "), None);
    assert_eq!(parse_u64("1a"), None);
    assert_eq!(parse_u64("a1"), None);
    assert_eq!(parse_u64("\u{661}\u{662}"), None);
    assert_eq!(parse_u64("1/"), None);
    assert_eq!(parse_u64("1:"), None);
}

#[test]
fn games_of_one_queue_are_kept_in_order() {
    let history = vec![
        queued("a", Some(3)),
        queued("b", Some(4)),
        queued("c", None),
        queued("d", Some(3)),
        queued("e", Some(17)),
    ];
    let solo = retain_leaderboard(history.clone(), LeaderboardId::RankedSolo);
    assert_eq!(solo.iter().map(|g| g.match_id.as_str()).collect::<Vec<_>>(), vec!["a", "d"]);
    let team = retain_leaderboard(history.clone(), LeaderboardId::RankedTeam);
    assert_eq!(team.iter().map(|g| g.match_id.as_str()).collect::<Vec<_>>(), vec!["b"]);
    let unranked = retain_leaderboard(history, LeaderboardId::Unranked);
    assert_eq!(unranked.iter().map(|g| g.match_id.as_str()).collect::<Vec<_>>(), vec!["c", "e"]);
    assert!(retain_leaderboard(vec![], LeaderboardId::RankedSolo).is_empty());
}

#[test]
fn empty_history_is_no_history() {
    match track_history(1, &vec![]) {
        Ok(_) => panic!("an empty history cannot be tracked"),
        Err(error) => assert_eq!(error.description(), "Player has not played any games."),
    }
}

#[test]
fn history_is_tracked_from_nothing() {
    let tracker = match track_history(1, &vec![queued("a", Some(3))]) {
        Ok(tracker) => tracker,
        Err(_) => panic!("a history with a game can be tracked"),
    };
    assert_eq!(tracker.profile_id, 1);
    assert_eq!(tracker.wins, 0);
    assert_eq!(tracker.losses, 0);
    assert!(tracker.records.is_empty());
}

#[test]
fn error_keeps_its_message() {
    let error = RuntimeError::new("Could not get match history.");
    assert_eq!(error.description(), "Could not get match history.");
    assert_eq!(error.clone().description(), "Could not get match history.");
    assert_eq!(RuntimeError::new("").description(), "");
}

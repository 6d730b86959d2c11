//! Records of the ranked-matchmaking feed and the questions asked of them.

use crate::decimal::{decimal, push_decimal, push_signed_decimal, signed_decimal};
use crate::filters::{lemma_filter_first, lemma_filter_step};
use vstd::prelude::*;
use vstd::string::StringExecFns;

verus! {

/// The matchmaking queue a match belongs to.
#[derive(Clone, Copy, Debug, PartialEq, Eq, Structural)]
pub enum LeaderboardId {
    Unranked,
    RankedSolo,
    RankedTeam,
}

impl LeaderboardId {
    /// The feed's number for this queue.
    pub open spec fn spec_code(self) -> i32 {
        match self {
            LeaderboardId::Unranked => 2,
            LeaderboardId::RankedSolo => 3,
            LeaderboardId::RankedTeam => 4,
        }
    }

    /// The queue that the feed numbers `leaderboard_id`; every number other
    /// than those of the two ranked queues is unranked.
    pub open spec fn spec_from_code(leaderboard_id: i32) -> LeaderboardId {
        if leaderboard_id == 3 {
            LeaderboardId::RankedSolo
        } else if leaderboard_id == 4 {
            LeaderboardId::RankedTeam
        } else {
            LeaderboardId::Unranked
        }
    }

    /// The feed's number for this queue.
    pub fn code(self) -> (code: i32)
        ensures
            code == self.spec_code(),
    {
        match self {
            LeaderboardId::Unranked => 2,
            LeaderboardId::RankedSolo => 3,
            LeaderboardId::RankedTeam => 4,
        }
    }

    /// The queue that the feed numbers `leaderboard_id`.
    pub fn to_leaderboard_id(leaderboard_id: i32) -> (id: LeaderboardId)
        ensures
            id == Self::spec_from_code(leaderboard_id),
    {
        if leaderboard_id == 3 {
            LeaderboardId::RankedSolo
        } else if leaderboard_id == 4 {
            LeaderboardId::RankedTeam
        } else {
            LeaderboardId::Unranked
        }
    }
}

/// The characters of an optional string.
pub open spec fn text_view(text: Option<String>) -> Option<Seq<char>> {
    match text {
        Some(t) => Some(t@),
        None => None,
    }
}

fn clone_text(text: &Option<String>) -> (copy: Option<String>)
    ensures
        text_view(copy) == text_view(*text),
{
    match text {
        Some(t) => Some(t.clone()),
        None => None,
    }
}

/// One entry of a leaderboard, as a value.
pub struct LeaderboardEntryView {
    pub profile_id: i32,
    pub name: Seq<char>,
    pub icon: Option<Seq<char>>,
    pub rank: Option<i32>,
    pub rating: Option<i32>,
    pub previous_rating: Option<i32>,
    pub steam_id: Option<Seq<char>>,
    pub last_match: Option<i32>,
    pub last_match_time: Option<i32>,
}

impl LeaderboardEntryView {
    /// The player's rating; 0 where it is unknown.
    pub open spec fn get_rating(self) -> i32 {
        match self.rating {
            Some(rating) => rating,
            None => 0,
        }
    }
}

/// One entry of a leaderboard: a player and the player's standing.
#[derive(Debug)]
pub struct PlayerResponse {
    pub profile_id: i32,
    pub name: String,
    pub icon: Option<String>,
    pub rank: Option<i32>,
    pub rating: Option<i32>,
    pub previous_rating: Option<i32>,
    pub steam_id: Option<String>,
    pub last_match: Option<i32>,
    pub last_match_time: Option<i32>,
}

impl View for PlayerResponse {
    type V = LeaderboardEntryView;

    open spec fn view(&self) -> LeaderboardEntryView {
        LeaderboardEntryView {
            profile_id: self.profile_id,
            name: self.name@,
            icon: text_view(self.icon),
            rank: self.rank,
            rating: self.rating,
            previous_rating: self.previous_rating,
            steam_id: text_view(self.steam_id),
            last_match: self.last_match,
            last_match_time: self.last_match_time,
        }
    }
}

impl Clone for PlayerResponse {
    fn clone(&self) -> (copy: Self)
        ensures
            copy@ == self@,
    {
        PlayerResponse {
            profile_id: self.profile_id,
            name: self.name.clone(),
            icon: clone_text(&self.icon),
            rank: self.rank,
            rating: self.rating,
            previous_rating: self.previous_rating,
            steam_id: clone_text(&self.steam_id),
            last_match: self.last_match,
            last_match_time: self.last_match_time,
        }
    }
}

impl Default for PlayerResponse {
    fn default() -> (player: Self)
        ensures
            player@ == (LeaderboardEntryView {
                profile_id: 0,
                name: Seq::empty(),
                icon: None,
                rank: None,
                rating: None,
                previous_rating: None,
                steam_id: None,
                last_match: None,
                last_match_time: None,
            }),
    {
        PlayerResponse {
            profile_id: 0,
            name: String::new(),
            icon: None,
            rank: None,
            rating: None,
            previous_rating: None,
            steam_id: None,
            last_match: None,
            last_match_time: None,
        }
    }
}

impl PlayerResponse {
    /// The player's rating; 0 where it is unknown.
    pub fn get_rating(&self) -> (rating: i32)
        ensures
            rating == self@.get_rating(),
    {
        match self.rating {
            None => 0,
            Some(r) => r,
        }
    }
}

/// The answer to a search of a leaderboard.
#[derive(Debug)]
pub struct LookupPlayerResponse {
    pub total: i32,
    pub leaderboard_id: i32,
    pub start: i32,
    pub count: i32,
    pub leaderboard: Vec<PlayerResponse>,
    pub steam_id: Option<String>,
}

impl LookupPlayerResponse {
    /// The player that the search found: the first entry, unless the
    /// answer counts no entries or holds none.
    pub open spec fn spec_first_player(&self) -> Option<LeaderboardEntryView> {
        if self.count == 0 || self.leaderboard.len() == 0 {
            None
        } else {
            Some(self.leaderboard[0]@)
        }
    }

    /// The player that the search found, if any.
    pub fn first_player(&self) -> (found: Option<PlayerResponse>)
        ensures
            match found {
                Some(player) => self.spec_first_player() == Some(player@),
                None => self.spec_first_player() is None,
            },
    {
        if self.count == 0 || self.leaderboard.len() == 0 {
            None
        } else {
            Some(self.leaderboard[0].clone())
        }
    }
}

/// The rating to show for a player who was searched for: the player's
/// rating, or -1 where the search found nobody.
pub fn rating_of_search(found: Option<&PlayerResponse>) -> (rating: i32)
    ensures
        rating == match found {
            Some(player) => player@.get_rating(),
            None => -1i32,
        },
{
    match found {
        Some(player) => player.get_rating(),
        None => -1,
    }
}

/// Where the feed is asked.
pub open spec fn api_base_url() -> Seq<char> {
    "https://aoe2.net/api"@
}

/// The address that searches the leaderboard of a queue for a name.
pub open spec fn leaderboard_url_text(name: Seq<char>, leaderboard_id: LeaderboardId) -> Seq<
    char,
> {
    api_base_url() + "/leaderboard?start=1&leaderboard_id="@ + decimal(
        leaderboard_id.spec_code() as nat,
    ) + "&search="@ + name
}

/// Writes the address that searches the leaderboard of a queue for a name.
pub fn leaderboard_url(name: &str, leaderboard_id: LeaderboardId) -> (url: String)
    ensures
        url@ == leaderboard_url_text(name@, leaderboard_id),
{
    let mut url = String::from_str("https://aoe2.net/api");
    url.append("/leaderboard?start=1&leaderboard_id=");
    push_decimal(&mut url, leaderboard_id.code() as u64);
    url.append("&search=");
    url.append(name);
    url
}

/// The address that asks for the `count` most recent matches of a player.
pub open spec fn match_history_url_text(profile_id: i32, count: u32) -> Seq<char> {
    api_base_url() + "/player/matches?game=aoe2de&start=0&count="@ + decimal(count as nat)
        + "&profile_id="@ + signed_decimal(profile_id as int)
}

/// Writes the address that asks for the `count` most recent matches of a
/// player.
pub fn match_history_url(profile_id: i32, count: u32) -> (url: String)
    ensures
        url@ == match_history_url_text(profile_id, count),
{
    let mut url = String::from_str("https://aoe2.net/api");
    url.append("/player/matches?game=aoe2de&start=0&count=");
    push_decimal(&mut url, count as u64);
    url.append("&profile_id=");
    push_signed_decimal(&mut url, profile_id as i64);
    url
}

/// One player's part in one match, as a value.
pub struct PlayerView {
    pub profile_id: Option<i32>,
    pub steam_id: Option<Seq<char>>,
    pub team: Option<i32>,
    pub name: Option<Seq<char>>,
    pub rating: Option<i32>,
    pub won: Option<bool>,
}

impl PlayerView {
    /// The player's identity; 0 where the feed gave none.
    pub open spec fn get_profile_id(self) -> i32 {
        match self.profile_id {
            Some(id) => id,
            None => 0,
        }
    }

    /// The player's rating; 0 where it is unknown.
    pub open spec fn get_rating(self) -> i32 {
        match self.rating {
            Some(rating) => rating,
            None => 0,
        }
    }

    /// The player's display name; empty where the feed gave none.
    pub open spec fn get_name(self) -> Seq<char> {
        match self.name {
            Some(name) => name,
            None => Seq::empty(),
        }
    }

    /// The player's team; 0 where the feed gave none.
    pub open spec fn get_team(self) -> i32 {
        match self.team {
            Some(team) => team,
            None => 0,
        }
    }

    /// Whether the feed says that the player won; an absent result counts as
    /// not won.
    pub open spec fn is_win(self) -> bool {
        match self.won {
            Some(won) => won,
            None => false,
        }
    }
}

/// One player's part in one match.
#[derive(Debug)]
pub struct MatchHistoryPlayerResponse {
    pub profile_id: Option<i32>,
    pub steam_id: Option<String>,
    pub team: Option<i32>,
    pub name: Option<String>,
    pub rating: Option<i32>,
    pub won: Option<bool>,
}

impl View for MatchHistoryPlayerResponse {
    type V = PlayerView;

    open spec fn view(&self) -> PlayerView {
        PlayerView {
            profile_id: self.profile_id,
            steam_id: text_view(self.steam_id),
            team: self.team,
            name: text_view(self.name),
            rating: self.rating,
            won: self.won,
        }
    }
}

impl Clone for MatchHistoryPlayerResponse {
    fn clone(&self) -> (copy: Self)
        ensures
            copy@ == self@,
    {
        MatchHistoryPlayerResponse {
            profile_id: self.profile_id,
            steam_id: clone_text(&self.steam_id),
            team: self.team,
            name: clone_text(&self.name),
            rating: self.rating,
            won: self.won,
        }
    }
}

impl Default for MatchHistoryPlayerResponse {
    fn default() -> (player: Self)
        ensures
            player@ == (PlayerView {
                profile_id: None,
                steam_id: None,
                team: None,
                name: None,
                rating: None,
                won: None,
            }),
    {
        MatchHistoryPlayerResponse {
            profile_id: None,
            steam_id: None,
            team: None,
            name: None,
            rating: None,
            won: None,
        }
    }
}

impl MatchHistoryPlayerResponse {
    /// The player's identity; 0 where the feed gave none.
    pub fn get_profile_id(&self) -> (id: i32)
        ensures
            id == self@.get_profile_id(),
    {
        match self.profile_id {
            None => 0,
            Some(r) => r,
        }
    }

    /// The player's rating; 0 where it is unknown.
    pub fn get_rating(&self) -> (rating: i32)
        ensures
            rating == self@.get_rating(),
    {
        match self.rating {
            None => 0,
            Some(r) => r,
        }
    }

    /// The player's display name; empty where the feed gave none.
    pub fn get_name(&self) -> (name: String)
        ensures
            name@ == self@.get_name(),
    {
        match &self.name {
            None => String::new(),
            Some(r) => r.clone(),
        }
    }

    /// The player's team; 0 where the feed gave none.
    pub fn get_team(&self) -> (team: i32)
        ensures
            team == self@.get_team(),
    {
        match self.team {
            None => 0,
            Some(r) => r,
        }
    }

    /// Whether the feed says that the player won.
    pub fn is_win(&self) -> (won: bool)
        ensures
            won == self@.is_win(),
    {
        match self.won {
            Some(value) => value,
            None => false,
        }
    }
}

/// The players of a match, as values.
pub open spec fn players_view(players: Seq<MatchHistoryPlayerResponse>) -> Seq<PlayerView> {
    players.map_values(|p: MatchHistoryPlayerResponse| p@)
}

/// What a list of borrowed players holds, as values.
pub open spec fn player_refs_view(players: Seq<&MatchHistoryPlayerResponse>) -> Seq<PlayerView> {
    players.map_values(|p: &MatchHistoryPlayerResponse| p@)
}

/// The players with the given identity.
pub open spec fn has_profile_id(profile_id: i32) -> spec_fn(PlayerView) -> bool {
    |p: PlayerView| p.get_profile_id() == profile_id
}

/// The players on the given team.
pub open spec fn on_team(team: i32) -> spec_fn(PlayerView) -> bool {
    |p: PlayerView| p.get_team() == team
}

/// The players on any other team than the given one.
pub open spec fn off_team(team: i32) -> spec_fn(PlayerView) -> bool {
    |p: PlayerView| p.get_team() != team
}

/// The players on the given team, but for the one with the given identity.
pub open spec fn team_mate(team: i32, profile_id: i32) -> spec_fn(PlayerView) -> bool {
    |p: PlayerView| p.get_team() == team && p.get_profile_id() != profile_id
}

/// The identities of the given players, in order.
pub open spec fn profile_ids(players: Seq<PlayerView>) -> Seq<i32> {
    players.map_values(|p: PlayerView| p.get_profile_id())
}

/// One game, as a value.
pub struct GameView {
    pub match_id: Seq<char>,
    pub num_players: Option<i32>,
    pub ranked: bool,
    pub started: i64,
    pub leaderboard_id: Option<i32>,
    pub lobby_id: Option<Seq<char>>,
    pub match_uuid: Option<Seq<char>>,
    pub version: Option<Seq<char>>,
    pub finished: Option<i32>,
    pub players: Seq<PlayerView>,
}

impl GameView {
    /// The first player of the game with the given identity.
    pub open spec fn get_player_by_profile_id(self, profile_id: i32) -> Option<PlayerView> {
        let found = self.players.filter(has_profile_id(profile_id));
        if found.len() > 0 {
            Some(found[0])
        } else {
            None
        }
    }

    /// The players on team `team_id`, in the game's order.
    pub open spec fn get_team(self, team_id: i32) -> Seq<PlayerView> {
        self.players.filter(on_team(team_id))
    }

    /// The queue of the game; unranked where the feed names none.
    pub open spec fn get_leaderboard_id(self) -> LeaderboardId {
        match self.leaderboard_id {
            Some(id) => LeaderboardId::spec_from_code(id),
            None => LeaderboardId::Unranked,
        }
    }

    /// The team of the given player; team 1 where the player is not in the
    /// game.
    pub open spec fn get_team_id_by_profile_id(self, profile_id: i32) -> i32 {
        match self.get_player_by_profile_id(profile_id) {
            Some(player) => player.get_team(),
            None => 1,
        }
    }

    /// The identities of the players on team `team`, in the game's order.
    pub open spec fn get_profile_ids_on_team(self, team: i32) -> Seq<i32> {
        profile_ids(self.get_team(team))
    }

    /// Every player whose team differs from that of the given player, in
    /// the game's order.
    pub open spec fn get_opposing_team(self, my_profile_id: i32) -> Seq<PlayerView> {
        self.players.filter(off_team(self.get_team_id_by_profile_id(my_profile_id)))
    }

    /// The identities of the opposing players, in the game's order.
    pub open spec fn get_opposing_team_profile_ids(self, my_profile_id: i32) -> Seq<i32> {
        profile_ids(self.get_opposing_team(my_profile_id))
    }

    /// Every player who shares the given player's team, the given player
    /// left out, in the game's order.
    pub open spec fn get_my_team(self, my_profile_id: i32) -> Seq<PlayerView> {
        self.players.filter(
            team_mate(self.get_team_id_by_profile_id(my_profile_id), my_profile_id),
        )
    }

    /// A game that has no finishing time is still being played.
    pub open spec fn in_progress(self) -> bool {
        self.finished is None
    }
}

/// One game: when it was played, in which queue, and by whom.
#[derive(Debug)]
pub struct MatchHistoryGameResponse {
    pub match_id: String,
    pub num_players: Option<i32>,
    pub ranked: bool,
    pub started: i64,
    pub leaderboard_id: Option<i32>,
    pub lobby_id: Option<String>,
    pub match_uuid: Option<String>,
    pub version: Option<String>,
    pub finished: Option<i32>,
    pub players: Vec<MatchHistoryPlayerResponse>,
}

impl View for MatchHistoryGameResponse {
    type V = GameView;

    open spec fn view(&self) -> GameView {
        GameView {
            match_id: self.match_id@,
            num_players: self.num_players,
            ranked: self.ranked,
            started: self.started,
            leaderboard_id: self.leaderboard_id,
            lobby_id: text_view(self.lobby_id),
            match_uuid: text_view(self.match_uuid),
            version: text_view(self.version),
            finished: self.finished,
            players: players_view(self.players@),
        }
    }
}

fn clone_players(players: &Vec<MatchHistoryPlayerResponse>) -> (copy: Vec<
    MatchHistoryPlayerResponse,
>)
    ensures
        players_view(copy@) == players_view(players@),
{
    let mut copy: Vec<MatchHistoryPlayerResponse> = Vec::new();
    let mut i: usize = 0;
    while i < players.len()
        invariant
            i <= players.len(),
            players_view(copy@) == players_view(players@).take(i as int),
        decreases players.len() - i,
    {
        proof {
            players_view(players@).lemma_take_succ_push(i as int);
        }
        copy.push(players[i].clone());
        i += 1;
    }
    copy
}

impl Clone for MatchHistoryGameResponse {
    fn clone(&self) -> (copy: Self)
        ensures
            copy@ == self@,
    {
        MatchHistoryGameResponse {
            match_id: self.match_id.clone(),
            num_players: self.num_players,
            ranked: self.ranked,
            started: self.started,
            leaderboard_id: self.leaderboard_id,
            lobby_id: clone_text(&self.lobby_id),
            match_uuid: clone_text(&self.match_uuid),
            version: clone_text(&self.version),
            finished: self.finished,
            players: clone_players(&self.players),
        }
    }
}

impl Default for MatchHistoryGameResponse {
    fn default() -> (game: Self)
        ensures
            game@ == (GameView {
                match_id: Seq::empty(),
                num_players: None,
                ranked: false,
                started: 0,
                leaderboard_id: None,
                lobby_id: None,
                match_uuid: None,
                version: None,
                finished: None,
                players: Seq::empty(),
            }),
    {
        let game = MatchHistoryGameResponse {
            match_id: String::new(),
            num_players: None,
            ranked: false,
            started: 0,
            leaderboard_id: None,
            lobby_id: None,
            match_uuid: None,
            version: None,
            finished: None,
            players: Vec::new(),
        };
        assert(game@.players =~= Seq::empty());
        game
    }
}

impl MatchHistoryGameResponse {
    /// The first player of the game with the given identity.
    pub fn get_player_by_profile_id(&self, profile_id: i32) -> (found: Option<
        &MatchHistoryPlayerResponse,
    >)
        ensures
            match found {
                Some(player) => self@.get_player_by_profile_id(profile_id) == Some(player@),
                None => self@.get_player_by_profile_id(profile_id) is None,
            },
    {
        match self.index_of_profile_id(profile_id) {
            Some(i) => {
                proof {
                    lemma_filter_first(self@.players, has_profile_id(profile_id), i as int);
                }
                Some(&self.players[i])
            },
            None => None,
        }
    }

    /// Whether `later` is `self` with the player at index `i` replaced by
    /// `player` and nothing else changed.
    pub open spec fn with_player_at(
        &self,
        i: int,
        player: MatchHistoryPlayerResponse,
        later: &MatchHistoryGameResponse,
    ) -> bool {
        &&& later.players@ == self.players@.update(i, player)
        &&& later.match_id == self.match_id
        &&& later.num_players == self.num_players
        &&& later.ranked == self.ranked
        &&& later.started == self.started
        &&& later.leaderboard_id == self.leaderboard_id
        &&& later.lobby_id == self.lobby_id
        &&& later.match_uuid == self.match_uuid
        &&& later.version == self.version
        &&& later.finished == self.finished
    }

    /// The index of the first player with the given identity.
    fn index_of_profile_id(&self, profile_id: i32) -> (found: Option<usize>)
        ensures
            match found {
                Some(i) => {
                    &&& i < self.players.len()
                    &&& self@.players[i as int].get_profile_id() == profile_id
                    &&& self@.players.take(i as int).filter(has_profile_id(profile_id)).len()
                        == 0
                },
                None => self@.get_player_by_profile_id(profile_id) is None,
            },
    {
        let mut i: usize = 0;
        while i < self.players.len()
            invariant
                i <= self.players.len(),
                self@.players.take(i as int).filter(has_profile_id(profile_id)).len() == 0,
            decreases self.players.len() - i,
        {
            if self.players[i].get_profile_id() == profile_id {
                return Some(i);
            }
            proof {
                lemma_filter_step(self@.players, has_profile_id(profile_id), i as int);
            }
            i += 1;
        }
        assert(self@.players.take(i as int) =~= self@.players);
        None
    }

    /// The first player of the game with the given identity, to be changed
    /// in place: what the caller leaves behind the reference is what the
    /// game holds at that player's place afterwards, and nothing else
    /// changes.
    pub fn get_player_by_profile_id_mut(&mut self, profile_id: i32) -> (found: Option<
        &mut MatchHistoryPlayerResponse,
    >)
        ensures
            match found {
                Some(player) => {
                    &&& old(self)@.get_player_by_profile_id(profile_id) == Some(player@)
                    &&& exists|i: int|
                        {
                            &&& 0 <= i < old(self).players.len()
                            &&& *player == #[trigger] old(self).players[i]
                            &&& old(self)@.players.take(i).filter(
                                has_profile_id(profile_id),
                            ).len() == 0
                            &&& old(self).with_player_at(i, *final(player), final(self))
                        }
                },
                None => {
                    &&& old(self)@.get_player_by_profile_id(profile_id) is None
                    &&& *final(self) == *old(self)
                },
            },
    {
        match self.index_of_profile_id(profile_id) {
            Some(i) => {
                proof {
                    lemma_filter_first(self@.players, has_profile_id(profile_id), i as int);
                }
                Some(&mut self.players[i])
            },
            None => None,
        }
    }

    /// The players on team `team_id`, in the game's order.
    pub fn get_team(&self, team_id: i32) -> (team: Vec<&MatchHistoryPlayerResponse>)
        ensures
            player_refs_view(team@) == self@.get_team(team_id),
    {
        let mut ret: Vec<&MatchHistoryPlayerResponse> = Vec::new();
        let mut i: usize = 0;
        while i < self.players.len()
            invariant
                i <= self.players.len(),
                player_refs_view(ret@) == self@.players.take(i as int).filter(on_team(team_id)),
            decreases self.players.len() - i,
        {
            proof {
                lemma_filter_step(self@.players, on_team(team_id), i as int);
            }
            if self.players[i].get_team() == team_id {
                ret.push(&self.players[i]);
            }
            i += 1;
        }
        assert(self@.players.take(i as int) =~= self@.players);
        ret
    }

    /// The queue of the game; unranked where the feed names none.
    pub fn get_leaderboard_id(&self) -> (id: LeaderboardId)
        ensures
            id == self@.get_leaderboard_id(),
    {
        match self.leaderboard_id {
            Some(id) => LeaderboardId::to_leaderboard_id(id),
            None => LeaderboardId::Unranked,
        }
    }

    /// The team of the given player; team 1 where the player is not in the
    /// game.
    pub fn get_team_id_by_profile_id(&self, profile_id: i32) -> (team: i32)
        ensures
            team == self@.get_team_id_by_profile_id(profile_id),
    {
        match self.get_player_by_profile_id(profile_id) {
            Some(player) => player.get_team(),
            None => 1,
        }
    }

    /// The identities of the players on team `team`, in the game's order.
    pub fn get_profile_ids_on_team(&self, team: i32) -> (ids: Vec<i32>)
        ensures
            ids@ == self@.get_profile_ids_on_team(team),
    {
        let mut ret: Vec<i32> = Vec::new();
        let mut i: usize = 0;
        while i < self.players.len()
            invariant
                i <= self.players.len(),
                ret@ == profile_ids(self@.players.take(i as int).filter(on_team(team))),
            decreases self.players.len() - i,
        {
            proof {
                lemma_filter_step(self@.players, on_team(team), i as int);
            }
            if self.players[i].get_team() == team {
                ret.push(self.players[i].get_profile_id());
            }
            i += 1;
        }
        assert(self@.players.take(i as int) =~= self@.players);
        ret
    }

    /// The identities of the players whose team differs from that of the
    /// given player, in the game's order.
    pub fn get_opposing_team_profile_ids(&self, my_profile_id: i32) -> (ids: Vec<i32>)
        ensures
            ids@ == self@.get_opposing_team_profile_ids(my_profile_id),
    {
        let my_team_id = self.get_team_id_by_profile_id(my_profile_id);
        let mut ret: Vec<i32> = Vec::new();
        let mut i: usize = 0;
        while i < self.players.len()
            invariant
                i <= self.players.len(),
                ret@ == profile_ids(self@.players.take(i as int).filter(off_team(my_team_id))),
            decreases self.players.len() - i,
        {
            proof {
                lemma_filter_step(self@.players, off_team(my_team_id), i as int);
            }
            if self.players[i].get_team() != my_team_id {
                ret.push(self.players[i].get_profile_id());
            }
            i += 1;
        }
        assert(self@.players.take(i as int) =~= self@.players);
        ret
    }

    /// Every player whose team differs from that of the given player, in
    /// the game's order.
    pub fn get_opposing_team(&self, my_profile_id: i32) -> (team: Vec<
        &MatchHistoryPlayerResponse,
    >)
        ensures
            player_refs_view(team@) == self@.get_opposing_team(my_profile_id),
    {
        let my_team_id = self.get_team_id_by_profile_id(my_profile_id);
        let mut ret: Vec<&MatchHistoryPlayerResponse> = Vec::new();
        let mut i: usize = 0;
        while i < self.players.len()
            invariant
                i <= self.players.len(),
                player_refs_view(ret@) == self@.players.take(i as int).filter(
                    off_team(my_team_id),
                ),
            decreases self.players.len() - i,
        {
            proof {
                lemma_filter_step(self@.players, off_team(my_team_id), i as int);
            }
            if self.players[i].get_team() != my_team_id {
                ret.push(&self.players[i]);
            }
            i += 1;
        }
        assert(self@.players.take(i as int) =~= self@.players);
        ret
    }

    /// Every player who shares the given player's team, the given player
    /// left out, in the game's order.
    pub fn get_my_team(&self, my_profile_id: i32) -> (team: Vec<&MatchHistoryPlayerResponse>)
        ensures
            player_refs_view(team@) == self@.get_my_team(my_profile_id),
    {
        let my_team_id = self.get_team_id_by_profile_id(my_profile_id);
        let mut ret: Vec<&MatchHistoryPlayerResponse> = Vec::new();
        let mut i: usize = 0;
        while i < self.players.len()
            invariant
                i <= self.players.len(),
                player_refs_view(ret@) == self@.players.take(i as int).filter(
                    team_mate(my_team_id, my_profile_id),
                ),
            decreases self.players.len() - i,
        {
            proof {
                lemma_filter_step(self@.players, team_mate(my_team_id, my_profile_id), i as int);
            }
            if self.players[i].get_team() == my_team_id && self.players[i].get_profile_id()
                != my_profile_id {
                ret.push(&self.players[i]);
            }
            i += 1;
        }
        assert(self@.players.take(i as int) =~= self@.players);
        ret
    }

    /// The identifier of the game.
    pub fn get_match_id(&self) -> (id: &str)
        ensures
            id@ == self@.match_id,
    {
        self.match_id.as_str()
    }
}

/// The most recent match of a player, as a value.
pub struct LastMatchView {
    pub profile_id: i32,
    pub last_match: Option<GameView>,
}

/// The most recent match of a player.
#[derive(Debug)]
pub struct LastMatchResponse {
    pub profile_id: i32,
    pub last_match: Option<MatchHistoryGameResponse>,
}

impl View for LastMatchResponse {
    type V = LastMatchView;

    open spec fn view(&self) -> LastMatchView {
        LastMatchView {
            profile_id: self.profile_id,
            last_match: match self.last_match {
                Some(game) => Some(game@),
                None => None,
            },
        }
    }
}

impl LastMatchResponse {
    /// The most recent match of a history that is given most recent first;
    /// none for an empty history.
    pub fn latest(profile_id: i32, match_history: &Vec<MatchHistoryGameResponse>) -> (latest:
        LastMatchResponse)
        ensures
            latest@ == (LastMatchView {
                profile_id,
                last_match: if match_history.len() > 0 {
                    Some(match_history[0]@)
                } else {
                    None
                },
            }),
    {
        if match_history.len() > 0 {
            LastMatchResponse { profile_id, last_match: Some(match_history[0].clone()) }
        } else {
            LastMatchResponse { profile_id, last_match: None }
        }
    }
}

} // verus!

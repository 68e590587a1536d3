//! Players on the server and what is known of them.
use vstd::prelude::*;

use std::collections::{HashMap, VecDeque};

use crate::io::g15::G15Player;
use crate::io::regexes::StatusLine;
use crate::maps::keys_of;
use crate::parties::{contains_id, lists, parties_found, Parties};
use crate::json::{same_json, JsonValue};
use crate::player_records::{
    default_custom_data, name_updated, string_eq_str, strings_view, PlayerRecords, Verdict,
};
use crate::time::{at_least_hours_between, hours_passed, utc_now, Timestamp};

verus! {

/// Connection state of a player.
#[derive(Debug, Clone, Copy, PartialEq, Eq, Structural)]
pub enum PlayerState {
    Active,
    Spawning,
    Disconnected,
}

/// The team a player is on.
#[derive(Debug, Clone, Copy, PartialEq, Eq, Structural)]
pub enum Team {
    Unassigned,
    Spectators,
    Red,
    Blu,
}

/// The number the game uses for a team.
pub open spec fn team_number(t: Team) -> u32 {
    match t {
        Team::Unassigned => 0,
        Team::Spectators => 1,
        Team::Red => 2,
        Team::Blu => 3,
    }
}

impl Team {
    /// The team with the game's number `val`, if there is one.
    pub fn try_from_u32(val: u32) -> (r: Option<Team>)
        ensures
            r matches Some(t) ==> team_number(t) == val,
            r is None <==> val > 3,
    {
        match val {
            0 => Some(Team::Unassigned),
            1 => Some(Team::Spectators),
            2 => Some(Team::Red),
            3 => Some(Team::Blu),
            _ => None,
        }
    }

    /// The game's number for this team.
    pub fn number(&self) -> (n: u32)
        ensures
            n == team_number(*self),
    {
        match self {
            Team::Unassigned => 0,
            Team::Spectators => 1,
            Team::Red => 2,
            Team::Blu => 3,
        }
    }
}

/// What the Steam Web API says of a player.
#[derive(Debug, Clone)]
pub struct SteamInfo {
    pub account_name: String,
    pub profile_url: String,
    pub pfp_url: String,
    pub pfp_hash: String,
    pub profile_visibility: ProfileVisibility,
    pub time_created: Option<i64>,
    pub country_code: Option<String>,
    pub vac_bans: i64,
    pub game_bans: i64,
    pub days_since_last_ban: Option<i64>,
    /// Hours played in TF2, where asked for and known.
    pub playtime: Option<u64>,
    /// When this was fetched.
    pub fetched: Timestamp,
}

/// How long fetched Steam information stays fresh: it is stale once this
/// many whole hours have passed.
pub const STEAM_INFO_STALE_HOURS: u32 = 4;

impl SteamInfo {
    /// Whether the information is stale at the time `now`: at least
    /// `STEAM_INFO_STALE_HOURS` whole hours passed since it was fetched.
    pub fn expired_at(&self, now: Timestamp) -> (b: bool)
        ensures
            b == hours_passed(self.fetched, now, STEAM_INFO_STALE_HOURS as int),
    {
        at_least_hours_between(self.fetched, now, STEAM_INFO_STALE_HOURS)
    }

    /// Whether the information is stale now (see `expired_at`).
    pub fn expired(&self) -> (b: bool) {
        let now = utc_now();
        self.expired_at(now)
    }

    /// A copy of this information, equal to it.
    pub fn duplicate(&self) -> (r: SteamInfo)
        ensures
            r == *self,
    {
        SteamInfo {
            account_name: self.account_name.clone(),
            profile_url: self.profile_url.clone(),
            pfp_url: self.pfp_url.clone(),
            pfp_hash: self.pfp_hash.clone(),
            profile_visibility: self.profile_visibility,
            time_created: self.time_created,
            country_code: match &self.country_code {
                Some(c) => Some(c.clone()),
                None => None,
            },
            vac_bans: self.vac_bans,
            game_bans: self.game_bans,
            days_since_last_ban: self.days_since_last_ban,
            playtime: self.playtime,
            fetched: self.fetched,
        }
    }
}

/// Who can see a Steam profile.
#[derive(Debug, Clone, Copy, PartialEq, Eq, Structural)]
pub enum ProfileVisibility {
    Private,
    FriendsOnly,
    Public,
}

/// The visibility that the Steam Web API's number stands for: 2 is
/// friends only, 3 public, anything else private.
pub open spec fn visibility_of(value: i32) -> ProfileVisibility {
    if value == 2 {
        ProfileVisibility::FriendsOnly
    } else if value == 3 {
        ProfileVisibility::Public
    } else {
        ProfileVisibility::Private
    }
}

impl From<i32> for ProfileVisibility {
    fn from(value: i32) -> (r: Self) {
        match value {
            2 => ProfileVisibility::FriendsOnly,
            3 => ProfileVisibility::Public,
            _ => ProfileVisibility::Private,
        }
    }
}

impl vstd::std_specs::convert::FromSpecImpl<i32> for ProfileVisibility {
    open spec fn obeys_from_spec() -> bool {
        true
    }

    open spec fn from_spec(value: i32) -> Self {
        visibility_of(value)
    }
}

/// What the game says of a player on the server.
#[derive(Debug, Clone)]
pub struct GameInfo {
    pub name: String,
    pub userid: String,
    pub team: Team,
    pub time: u32,
    pub ping: u32,
    pub loss: u32,
    pub state: PlayerState,
    pub kills: u32,
    pub deaths: u32,
    pub alive: bool,
    /// How many cycles have passed since the player was last seen.
    pub last_seen: u32,
}

/// A `GameInfo` with its text as sequences of characters.
pub struct GameInfoView {
    pub name: Seq<char>,
    pub userid: Seq<char>,
    pub team: Team,
    pub time: u32,
    pub ping: u32,
    pub loss: u32,
    pub state: PlayerState,
    pub kills: u32,
    pub deaths: u32,
    pub alive: bool,
    pub last_seen: u32,
}

impl View for GameInfo {
    type V = GameInfoView;

    open spec fn view(&self) -> GameInfoView {
        GameInfoView {
            name: self.name@,
            userid: self.userid@,
            team: self.team,
            time: self.time,
            ping: self.ping,
            loss: self.loss,
            state: self.state,
            kills: self.kills,
            deaths: self.deaths,
            alive: self.alive,
            last_seen: self.last_seen,
        }
    }
}

/// After this many unseen cycles a player counts as disconnected.
pub const DISCONNECTED_THRESHOLD: u32 = 2;

/// After this many unseen cycles a player is moved off the server list.
pub const CYCLE_LIMIT: u32 = 6;

/// A player with no name or userid, unassigned, active, not alive, all
/// counts zero, seen in this cycle.
pub open spec fn new_game_info() -> GameInfoView {
    GameInfoView {
        name: Seq::empty(),
        userid: Seq::empty(),
        team: Team::Unassigned,
        time: 0,
        ping: 0,
        loss: 0,
        state: PlayerState::Active,
        kills: 0,
        deaths: 0,
        alive: false,
        last_seen: 0,
    }
}

/// The player `o` after being seen: zero cycles unseen, and active again
/// if it was disconnected.
pub open spec fn acknowledged(o: GameInfoView) -> GameInfoView {
    GameInfoView {
        last_seen: 0,
        state: if o.state == PlayerState::Disconnected {
            PlayerState::Active
        } else {
            o.state
        },
        ..o
    }
}

/// `o` updated from a `g15_dumpplayer` slot: each field the slot has
/// replaces the player's (the score gives the kills), then the player
/// counts as seen.
pub open spec fn g15_update(o: GameInfoView, g: crate::io::g15::G15PlayerView) -> GameInfoView {
    acknowledged(
        GameInfoView {
            name: match g.name {
                Some(x) => x,
                None => o.name,
            },
            userid: match g.userid {
                Some(x) => x,
                None => o.userid,
            },
            team: match g.team {
                Some(x) => x,
                None => o.team,
            },
            ping: match g.ping {
                Some(x) => x,
                None => o.ping,
            },
            kills: match g.score {
                Some(x) => x,
                None => o.kills,
            },
            deaths: match g.deaths {
                Some(x) => x,
                None => o.deaths,
            },
            alive: match g.alive {
                Some(x) => x,
                None => o.alive,
            },
            ..o
        },
    )
}

/// The state after a status line: a player whose connection time is under
/// 30 seconds and who has no team is spawning; spawning otherwise sticks
/// until the line says something other than active, or the player is alive
/// or a spectator; else the line's state is taken.
pub open spec fn state_after_status(o: GameInfoView, s: StatusLine) -> PlayerState {
    if s.time > 0 && s.time < 30 && o.team == Team::Unassigned {
        PlayerState::Spawning
    } else if o.state != PlayerState::Spawning || s.state != PlayerState::Active || o.alive
        || o.team == Team::Spectators {
        s.state
    } else {
        o.state
    }
}

/// `o` updated from a line of `status`: name, userid, time, ping and loss
/// are the line's, the state follows `state_after_status`, then the player
/// counts as seen.
pub open spec fn status_update(o: GameInfoView, s: StatusLine) -> GameInfoView {
    acknowledged(
        GameInfoView {
            name: s.name@,
            userid: s.userid@,
            time: s.time,
            ping: s.ping,
            loss: s.loss,
            state: state_after_status(o, s),
            ..o
        },
    )
}

/// A `g15_dumpplayer` slot overwrites each scoreboard field it holds and
/// leaves the others: the name, userid, team, ping, kills (from the score),
/// deaths and whether the player is alive are the slot's where it has them,
/// else the player's; the connection time and loss stay; and the player
/// counts as seen in this cycle.
pub proof fn lemma_g15_update_copies_fields(o: GameInfoView, g: crate::io::g15::G15PlayerView)
    ensures
        g.deaths matches Some(d) ==> g15_update(o, g).deaths == d,
        g.deaths is None ==> g15_update(o, g).deaths == o.deaths,
        g.score matches Some(k) ==> g15_update(o, g).kills == k,
        g.score is None ==> g15_update(o, g).kills == o.kills,
        g.ping matches Some(x) ==> g15_update(o, g).ping == x,
        g.ping is None ==> g15_update(o, g).ping == o.ping,
        g.team matches Some(t) ==> g15_update(o, g).team == t,
        g.team is None ==> g15_update(o, g).team == o.team,
        g.alive matches Some(a) ==> g15_update(o, g).alive == a,
        g.alive is None ==> g15_update(o, g).alive == o.alive,
        g.name matches Some(n) ==> g15_update(o, g).name == n,
        g.name is None ==> g15_update(o, g).name == o.name,
        g.userid matches Some(u) ==> g15_update(o, g).userid == u,
        g.userid is None ==> g15_update(o, g).userid == o.userid,
        g15_update(o, g).time == o.time,
        g15_update(o, g).loss == o.loss,
        g15_update(o, g).last_seen == 0,
        g15_update(o, g).state != PlayerState::Disconnected,
{
}

/// The state a line of `status` leaves: a player with no team whose
/// connection time is under 30 seconds is spawning; otherwise a player who
/// is alive, a spectator, not spawning, or reported as anything but active
/// takes the line's state (a disconnected one counts as active again, being
/// seen); only a spawning player who is neither alive nor a spectator and is
/// reported active stays spawning. The line's name, userid, time, ping and
/// loss are taken; team, kills, deaths and whether alive stay.
pub proof fn lemma_status_update_state(o: GameInfoView, s: StatusLine)
    ensures
        s.time > 0 && s.time < 30 && o.team == Team::Unassigned ==> status_update(o, s).state == PlayerState::Spawning,
        !(s.time > 0 && s.time < 30 && o.team == Team::Unassigned) && (o.alive || o.team == Team::Spectators
            || o.state != PlayerState::Spawning || s.state != PlayerState::Active) ==> status_update(o, s).state == if s.state
            == PlayerState::Disconnected {
            PlayerState::Active
        } else {
            s.state
        },
        !(s.time > 0 && s.time < 30 && o.team == Team::Unassigned) && !o.alive && o.team != Team::Spectators && o.state
            == PlayerState::Spawning && s.state == PlayerState::Active ==> status_update(o, s).state == PlayerState::Spawning,
        o.team != Team::Unassigned && o.alive && s.state == PlayerState::Active ==> status_update(o, s).state
            == PlayerState::Active,
        status_update(o, s).name == s.name@,
        status_update(o, s).userid == s.userid@,
        status_update(o, s).time == s.time,
        status_update(o, s).ping == s.ping,
        status_update(o, s).loss == s.loss,
        status_update(o, s).team == o.team,
        status_update(o, s).kills == o.kills,
        status_update(o, s).deaths == o.deaths,
        status_update(o, s).alive == o.alive,
        status_update(o, s).last_seen == 0,
{
}

/// `o` after one more cycle unseen: disconnected once more than
/// `DISCONNECTED_THRESHOLD` cycles have passed. The count wraps at the
/// top of `u32`.
pub open spec fn next_cycle_of(o: GameInfoView) -> GameInfoView {
    let n = if o.last_seen == u32::MAX {
        0u32
    } else {
        (o.last_seen + 1) as u32
    };
    GameInfoView {
        last_seen: n,
        state: if n > DISCONNECTED_THRESHOLD {
            PlayerState::Disconnected
        } else {
            o.state
        },
        ..o
    }
}

/// Distinct teams have distinct numbers, so a team read back from its
/// number is the same team.
pub proof fn lemma_team_number_injective(a: Team, b: Team)
    ensures
        team_number(a) == team_number(b) ==> a == b,
{
}

/// Steam information that is stale at some time stays stale later on.
pub proof fn lemma_expiry_monotone(fetched: Timestamp, t1: Timestamp, t2: Timestamp)
    requires
        hours_passed(fetched, t1, STEAM_INFO_STALE_HOURS as int),
        crate::time::total_nanos(t1) <= crate::time::total_nanos(t2),
    ensures
        hours_passed(fetched, t2, STEAM_INFO_STALE_HOURS as int),
{
}

/// `o` after `k` cycles unseen.
pub open spec fn after_cycles(o: GameInfoView, k: nat) -> GameInfoView
    decreases k,
{
    if k == 0 {
        o
    } else {
        next_cycle_of(after_cycles(o, (k - 1) as nat))
    }
}

/// A player seen in a cycle has then gone `k` cycles unseen: it counts as
/// disconnected once more than `DISCONNECTED_THRESHOLD` cycles have
/// passed, and is dropped from the server once more than `CYCLE_LIMIT`
/// have; its other details stay as they were.
pub proof fn lemma_seen_player_lifetime(o: GameInfoView, k: nat)
    requires
        k <= u32::MAX,
    ensures
        after_cycles(acknowledged(o), k).last_seen == k,
        (after_cycles(acknowledged(o), k).last_seen > CYCLE_LIMIT) <==> k > CYCLE_LIMIT,
        k > DISCONNECTED_THRESHOLD ==> after_cycles(acknowledged(o), k).state == PlayerState::Disconnected,
        k <= DISCONNECTED_THRESHOLD ==> after_cycles(acknowledged(o), k).state == acknowledged(o).state,
        after_cycles(acknowledged(o), k).name == o.name,
        after_cycles(acknowledged(o), k).team == o.team,
    decreases k,
{
    if k > 0 {
        lemma_seen_player_lifetime(o, (k - 1) as nat);
    }
}

impl GameInfo {
    /// A player with no name or userid (see `new_game_info`).
    pub fn new() -> (g: GameInfo)
        ensures
            g@ == new_game_info(),
    {
        GameInfo {
            name: String::new(),
            userid: String::new(),
            team: Team::Unassigned,
            time: 0,
            ping: 0,
            loss: 0,
            state: PlayerState::Active,
            kills: 0,
            deaths: 0,
            alive: false,
            last_seen: 0,
        }
    }

    /// A player taken from a `g15_dumpplayer` slot, where the slot has a
    /// userid.
    pub fn new_from_g15(g15: G15Player) -> (r: Option<GameInfo>)
        ensures
            g15.userid is None <==> r is None,
            r matches Some(g) ==> g@ == g15_update(new_game_info(), g15@),
    {
        if g15.userid.is_none() {
            return None;
        }
        let mut g = GameInfo::new();
        g.update_from_g15(g15);
        Some(g)
    }

    /// A player taken from a line of `status`.
    pub fn new_from_status(status: StatusLine) -> (g: GameInfo)
        ensures
            g@ == status_update(new_game_info(), status),
    {
        let mut g = GameInfo::new();
        g.update_from_status(status);
        g
    }

    /// Updates the player from a `g15_dumpplayer` slot.
    pub fn update_from_g15(&mut self, g15: G15Player)
        ensures
            final(self)@ == g15_update(old(self)@, g15@),
    {
        if let Some(name) = g15.name {
            self.name = name;
        }
        if let Some(userid) = g15.userid {
            self.userid = userid;
        }
        if let Some(team) = g15.team {
            self.team = team;
        }
        if let Some(ping) = g15.ping {
            self.ping = ping;
        }
        if let Some(kills) = g15.score {
            self.kills = kills;
        }
        if let Some(deaths) = g15.deaths {
            self.deaths = deaths;
        }
        if let Some(alive) = g15.alive {
            self.alive = alive;
        }
        self.acknowledge();
    }

    /// Updates the player from a line of `status`.
    pub fn update_from_status(&mut self, status: StatusLine)
        ensures
            final(self)@ == status_update(old(self)@, status),
    {
        let ghost before = self@;
        let spawning_now = status.time > 0 && status.time < 30 && self.team == Team::Unassigned;
        let take_line = self.state != PlayerState::Spawning || status.state != PlayerState::Active
            || self.alive || self.team == Team::Spectators;
        self.name = status.name;
        self.userid = status.userid;
        self.time = status.time;
        self.ping = status.ping;
        self.loss = status.loss;
        if spawning_now {
            self.state = PlayerState::Spawning;
        } else if take_line {
            self.state = status.state;
        }
        self.acknowledge();
    }

    /// Counts one more cycle in which the player was not seen.
    pub fn next_cycle(&mut self)
        ensures
            final(self)@ == next_cycle_of(old(self)@),
    {
        self.last_seen = self.last_seen.wrapping_add(1);
        if self.last_seen > DISCONNECTED_THRESHOLD {
            self.state = PlayerState::Disconnected;
        }
    }

    /// Whether the player has gone unseen for more than `CYCLE_LIMIT`
    /// cycles.
    pub fn should_prune(&self) -> (b: bool)
        ensures
            b == (self.last_seen > CYCLE_LIMIT),
    {
        self.last_seen > CYCLE_LIMIT
    }

    /// Marks the player as seen in this cycle.
    fn acknowledge(&mut self)
        ensures
            final(self)@ == acknowledged(old(self)@),
    {
        self.last_seen = 0;
        if self.state == PlayerState::Disconnected {
            self.state = PlayerState::Active;
        }
    }
}

/// A friend of a player, as the Steam Web API lists it.
#[derive(Debug, Clone, Copy, PartialEq, Eq, Structural)]
pub struct Friend {
    pub steamid: u64,
    pub friend_since: u64,
}

/// A player's friends list and whether it is public (`None`: not known).
#[derive(Debug, Clone)]
pub struct FriendInfo {
    pub public: Option<bool>,
    pub friends: Vec<Friend>,
}

/// The SteamIDs on a friends list, in order.
pub open spec fn friend_ids(friends: Seq<Friend>) -> Seq<u64> {
    friends.map_values(|f: Friend| f.steamid)
}

impl FriendInfo {
    /// An empty friends list whose visibility is not known.
    pub fn new() -> (fi: FriendInfo)
        ensures
            fi.public is None,
            fi.friends@.len() == 0,
    {
        FriendInfo { public: None, friends: Vec::new() }
    }

    /// The friends on the list.
    pub fn friends(&self) -> (f: &[Friend])
        ensures
            f@ == self.friends@,
    {
        self.friends.as_slice()
    }

    /// Whether `id` is on the list.
    pub fn lists(&self, id: u64) -> (b: bool)
        ensures
            b == friend_ids(self.friends@).contains(id),
    {
        let mut i: usize = 0;
        while i < self.friends.len()
            invariant
                i <= self.friends@.len(),
                forall|j: int| 0 <= j < i ==> self.friends@[j].steamid != id,
            decreases self.friends.len() - i,
        {
            if self.friends[i].steamid == id {
                proof {
                    assert(friend_ids(self.friends@)[i as int] == id);
                }
                return true;
            }
            i = i + 1;
        }
        proof {
            if friend_ids(self.friends@).contains(id) {
                let j = choose|j: int|
                    0 <= j < friend_ids(self.friends@).len() && friend_ids(self.friends@)[j] == id;
                assert(self.friends@[j].steamid == id);
            }
        }
        false
    }
}

broadcast use vstd::std_specs::hash::group_hash_axioms;

/// The tag that marks a friend of the user.
pub const FRIEND_TAG: &'static str = "Friend";

/// The tags set on `id`.
pub open spec fn tag_set(tags: Map<u64, Vec<String>>, id: u64) -> Set<Seq<char>> {
    if tags.contains_key(id) {
        strings_view(tags[id]@).to_set()
    } else {
        Set::empty()
    }
}

/// Whether `a` and `b` are friends: `Some(true)` where `a`'s list names
/// `b`, `Some(false)` where it does not but either list is public (so the
/// other side would have been seen), `None` where nothing can be told.
pub open spec fn spec_are_friends(m: Map<u64, FriendInfo>, a: u64, b: u64) -> Option<bool> {
    if lists(m, a, b) {
        Some(true)
    } else if m.contains_key(a) && m[a].public == Some(true) {
        Some(false)
    } else if m.contains_key(b) && m[b].public == Some(true) {
        Some(false)
    } else {
        None
    }
}

/// Whether every friends list is matched by the other side: a player
/// listed as a friend lists the player back.
pub open spec fn two_way(m: Map<u64, FriendInfo>) -> bool {
    forall|a: u64, b: u64| #[trigger] lists(m, a, b) ==> lists(m, b, a)
}

/// Where the friends lists are two-way, `are_friends` does not depend on
/// the order of the two players.
pub proof fn lemma_are_friends_symmetric(m: Map<u64, FriendInfo>, a: u64, b: u64)
    requires
        two_way(m),
    ensures
        spec_are_friends(m, a, b) == spec_are_friends(m, b, a),
{
    if lists(m, a, b) {
        assert(lists(m, b, a));
    }
    if lists(m, b, a) {
        assert(lists(m, a, b));
    }
}

/// Whether `id` is friends with the user (see `spec_are_friends`); `None`
/// where the user is not known.
pub open spec fn spec_friends_with_user(m: Map<u64, FriendInfo>, user: Option<u64>, id: u64) -> Option<bool> {
    match user {
        Some(u) => spec_are_friends(m, id, u),
        None => None,
    }
}

/// The players this client knows of: on the server now, seen before, and
/// recorded by the user.
pub struct Players {
    pub game_info: HashMap<u64, GameInfo>,
    pub steam_info: HashMap<u64, SteamInfo>,
    pub friend_info: HashMap<u64, FriendInfo>,
    pub records: PlayerRecords,
    pub tags: HashMap<u64, Vec<String>>,
    pub parties: Parties,
    pub connected: Vec<u64>,
    pub history: VecDeque<u64>,
    pub user: Option<u64>,
    /// Whether the parties must be found again at the next refresh.
    pub parties_needs_update: bool,
}

impl Players {
    /// No players yet, with the user's playerlist and SteamID.
    pub fn new(records: PlayerRecords, user: Option<u64>) -> (p: Players)
        ensures
            p.game_info@.len() == 0 && p.steam_info@.len() == 0 && p.friend_info@.len() == 0,
            p.tags@.len() == 0,
            p.connected@.len() == 0 && p.history@.len() == 0,
            p.records == records,
            p.user == user,
            !p.parties_needs_update,
    {
        Players {
            game_info: HashMap::new(),
            steam_info: HashMap::new(),
            friend_info: HashMap::new(),
            records,
            tags: HashMap::new(),
            parties: Parties::new(),
            connected: Vec::new(),
            history: VecDeque::new(),
            user,
            parties_needs_update: false,
        }
    }

    /// The user's verdict on a player: the recorded one, else `Player`.
    pub fn verdict(&self, steamid: u64) -> (v: Verdict)
        ensures
            v == if self.records.records@.contains_key(steamid) {
                self.records.records@[steamid].verdict
            } else {
                Verdict::Player
            },
    {
        match self.records.records.get(&steamid) {
            Some(r) => r.verdict(),
            None => Verdict::Player,
        }
    }

    /// Whether the player has the tag.
    pub fn has_tag(&self, steamid: u64, tag: &str) -> (b: bool)
        ensures
            b == tag_set(self.tags@, steamid).contains(tag@),
    {
        match self.tags.get(&steamid) {
            Some(ts) => index_of_str(ts, tag).is_some(),
            None => false,
        }
    }

    /// Sets a tag on the player.
    pub fn set_tag(&mut self, steamid: u64, tag: String)
        ensures
            tag_set(final(self).tags@, steamid) == tag_set(old(self).tags@, steamid).insert(tag@),
            forall|k: u64| k != steamid ==> #[trigger] final(self).tags@.contains_key(k) == old(self).tags@.contains_key(k)
                && (old(self).tags@.contains_key(k) ==> final(self).tags@[k] == old(self).tags@[k]),
            final(self).friend_info@ == old(self).friend_info@,
            final(self).game_info@ == old(self).game_info@,
            final(self).connected@ == old(self).connected@,
            final(self).user == old(self).user,
            final(self).parties_needs_update == old(self).parties_needs_update,
    {
        let mut ts = match self.tags.remove(&steamid) {
            Some(ts) => ts,
            None => Vec::new(),
        };
        let ghost before = ts@;
        proof {
            assert(strings_view(before).to_set() =~= tag_set(old(self).tags@, steamid));
        }
        if index_of_str(&ts, tag.as_str()).is_none() {
            ts.push(tag);
            proof {
                assert(strings_view(ts@) =~= strings_view(before).push(tag@));
                assert forall|x: Seq<char>| strings_view(ts@).to_set().contains(x) <==> strings_view(before).to_set().insert(tag@).contains(x) by {
                    if strings_view(before).contains(x) {
                        let j = choose|j: int| 0 <= j < strings_view(before).len() && strings_view(before)[j] == x;
                        assert(strings_view(ts@)[j] == x);
                    }
                    if x == tag@ {
                        assert(strings_view(ts@)[strings_view(ts@).len() - 1] == x);
                    }
                    if strings_view(ts@).contains(x) && x != tag@ {
                        let j = choose|j: int| 0 <= j < strings_view(ts@).len() && strings_view(ts@)[j] == x;
                        assert(strings_view(before)[j] == x);
                    }
                }
            }
        }
        self.tags.insert(steamid, ts);
        proof {
            assert(tag_set(self.tags@, steamid) =~= tag_set(old(self).tags@, steamid).insert(tag@));
        }
    }

    /// Clears a tag from the player; a player left with no tags has no
    /// entry.
    pub fn clear_tag(&mut self, steamid: u64, tag: &str)
        ensures
            tag_set(final(self).tags@, steamid) == tag_set(old(self).tags@, steamid).remove(tag@),
            final(self).tags@.contains_key(steamid) <==> exists|t: Seq<char>| #[trigger] tag_set(final(self).tags@, steamid).contains(t),
            forall|k: u64| k != steamid ==> #[trigger] final(self).tags@.contains_key(k) == old(self).tags@.contains_key(k)
                && (old(self).tags@.contains_key(k) ==> final(self).tags@[k] == old(self).tags@[k]),
            final(self).friend_info@ == old(self).friend_info@,
            final(self).game_info@ == old(self).game_info@,
            final(self).connected@ == old(self).connected@,
            final(self).user == old(self).user,
            final(self).parties_needs_update == old(self).parties_needs_update,
    {
        match self.tags.remove(&steamid) {
            Some(ts) => {
                let kept = without_str(&ts, tag);
                if kept.len() > 0 {
                    self.tags.insert(steamid, kept);
                    proof {
                        assert(strings_view(self.tags@[steamid]@)[0] == self.tags@[steamid]@[0]@);
                        assert(tag_set(self.tags@, steamid).contains(self.tags@[steamid]@[0]@));
                    }
                }
                proof {
                    assert(tag_set(self.tags@, steamid) =~= tag_set(old(self).tags@, steamid).remove(tag@));
                }
            },
            None => {
                proof {
                    assert(tag_set(self.tags@, steamid) =~= tag_set(old(self).tags@, steamid).remove(tag@));
                }
            },
        }
    }

    /// Whether two accounts are friends (see `spec_are_friends`).
    pub fn are_friends(&self, friend1: u64, friend2: u64) -> (r: Option<bool>)
        ensures
            r == spec_are_friends(self.friend_info@, friend1, friend2),
    {
        match self.friend_info.get(&friend1) {
            Some(fi) => {
                if fi.lists(friend2) {
                    return Some(true);
                }
                if fi.public == Some(true) {
                    return Some(false);
                }
            },
            None => {},
        }
        match self.friend_info.get(&friend2) {
            Some(fi) => {
                if fi.public == Some(true) {
                    return Some(false);
                }
            },
            None => {},
        }
        None
    }

    /// Whether an account is friends with the user (see
    /// `spec_friends_with_user`).
    pub fn is_friends_with_user(&self, friend: u64) -> (r: Option<bool>)
        ensures
            r == spec_friends_with_user(self.friend_info@, self.user, friend),
    {
        match self.user {
            Some(u) => self.are_friends(friend, u),
            None => None,
        }
    }

    /// Sets the friend tag on `friend` where it is friends with the user,
    /// and clears it otherwise.
    fn update_user_friend_tag(&mut self, friend: u64)
        ensures
            tag_set(final(self).tags@, friend) == if spec_friends_with_user(
                old(self).friend_info@,
                old(self).user,
                friend,
            ) == Some(true) {
                tag_set(old(self).tags@, friend).insert(FRIEND_TAG@)
            } else {
                tag_set(old(self).tags@, friend).remove(FRIEND_TAG@)
            },
            forall|k: u64| k != friend ==> #[trigger] final(self).tags@.contains_key(k) == old(self).tags@.contains_key(k)
                && (old(self).tags@.contains_key(k) ==> final(self).tags@[k] == old(self).tags@[k]),
            final(self).friend_info@ == old(self).friend_info@,
            final(self).game_info@ == old(self).game_info@,
            final(self).connected@ == old(self).connected@,
            final(self).user == old(self).user,
            final(self).parties_needs_update == old(self).parties_needs_update,
    {
        let is_friend = self.is_friends_with_user(friend);
        if is_friend == Some(true) {
            self.set_tag(friend, FRIEND_TAG.to_string());
        } else {
            self.clear_tag(friend, FRIEND_TAG);
        }
    }

    /// Sets the friends list of `steamid` to `friendslist`, as read from the
    /// Steam Web API (so the list is public), and keeps the lists two-way:
    /// every listed friend lists `steamid` back, and every player dropped
    /// from the list no longer lists `steamid`. Then updates the friend tag
    /// of `steamid`.
    pub fn update_friends_list(&mut self, steamid: u64, friendslist: Vec<Friend>)
        ensures
            final(self).friend_info@.contains_key(steamid),
            final(self).friend_info@[steamid].public == Some(true),
            final(self).friend_info@[steamid].friends@ == friendslist@,
            forall|x: u64| #[trigger] lists(final(self).friend_info@, steamid, x) <==> friend_ids(friendslist@).contains(x),
            forall|f: u64| #[trigger] friend_ids(friendslist@).contains(f) ==> lists(final(self).friend_info@, f, steamid),
            forall|f: u64|
                #[trigger] friend_ids(friendslist@).contains(f) ==> spec_are_friends(final(self).friend_info@, steamid, f)
                    == Some(true) && spec_are_friends(final(self).friend_info@, f, steamid) == Some(true),
            forall|o: u64|
                #[trigger] lists(old(self).friend_info@, steamid, o) && !friend_ids(friendslist@).contains(o)
                    ==> !lists(final(self).friend_info@, o, steamid),
            forall|o: u64, x: u64|
                o != steamid && x != steamid ==> (#[trigger] lists(final(self).friend_info@, o, x) <==> lists(
                    old(self).friend_info@,
                    o,
                    x,
                )),
            two_way(old(self).friend_info@) ==> two_way(final(self).friend_info@),
            tag_set(final(self).tags@, steamid).contains(FRIEND_TAG@) <==> spec_friends_with_user(
                final(self).friend_info@,
                final(self).user,
                steamid,
            ) == Some(true),
            final(self).user == old(self).user,
            final(self).game_info@ == old(self).game_info@,
            final(self).connected@ == old(self).connected@,
            final(self).parties_needs_update,
    {
        let ghost m0 = self.friend_info@;
        let ghost ids = friend_ids(friendslist@);
        let mut i: usize = 0;
        while i < friendslist.len()
            invariant
                i <= friendslist@.len(),
                ids == friend_ids(friendslist@),
                forall|o: u64, x: u64| x != steamid ==> (#[trigger] lists(self.friend_info@, o, x) <==> lists(m0, o, x)),
                forall|o: u64| #[trigger] lists(self.friend_info@, o, steamid) <==> lists(m0, o, steamid)
                    || (exists|j: int| 0 <= j < i && friendslist@[j].steamid == o),
                self.user == old(self).user,
                self.game_info@ == old(self).game_info@,
                self.connected@ == old(self).connected@,
            decreases friendslist.len() - i,
        {
            let ghost c0 = self.friend_info@;
            let f = friendslist[i];
            self.propagate_friend(steamid, &f);
            proof {
                let fs = f.steamid;
                let base = if c0.contains_key(fs) { c0[fs].friends@ } else { Seq::<Friend>::empty() };
                assert(friend_ids(self.friend_info@[fs].friends@) =~= friend_ids(base).push(steamid));
                assert forall|o: u64, x: u64| x != steamid implies (#[trigger] lists(self.friend_info@, o, x) <==> lists(c0, o, x)) by {
                    if o == fs {
                        if friend_ids(base).contains(x) {
                            let j = choose|j: int| 0 <= j < friend_ids(base).len() && friend_ids(base)[j] == x;
                            assert(friend_ids(self.friend_info@[fs].friends@)[j] == x);
                        }
                        if lists(self.friend_info@, o, x) {
                            let j = choose|j: int| 0 <= j < friend_ids(self.friend_info@[fs].friends@).len() && friend_ids(self.friend_info@[fs].friends@)[j] == x;
                            assert(friend_ids(base)[j] == x);
                        }
                    } else {
                        assert(self.friend_info@.contains_key(o) == c0.contains_key(o));
                        if c0.contains_key(o) {
                            assert(self.friend_info@[o] == c0[o]);
                        }
                    }
                }
                assert forall|o: u64| #[trigger] lists(self.friend_info@, o, steamid) <==> lists(m0, o, steamid)
                    || (exists|j: int| 0 <= j < i + 1 && friendslist@[j].steamid == o) by {
                    if o == fs {
                        assert(friend_ids(self.friend_info@[fs].friends@)[friend_ids(base).len() as int] == steamid);
                        assert(friendslist@[i as int].steamid == o);
                    } else {
                        assert(self.friend_info@.contains_key(o) == c0.contains_key(o));
                        if c0.contains_key(o) {
                            assert(self.friend_info@[o] == c0[o]);
                        }
                        assert(lists(self.friend_info@, o, steamid) == lists(c0, o, steamid));
                        if exists|j: int| 0 <= j < i + 1 && friendslist@[j].steamid == o {
                            let j = choose|j: int| 0 <= j < i + 1 && friendslist@[j].steamid == o;
                            assert(j != i);
                        }
                    }
                }
            }
            i = i + 1;
        }
        let ghost m1 = self.friend_info@;
        let ghost new_list = friendslist@;
        let removed = self.set_friends(steamid, friendslist);
        proof {
            assert forall|x: u64| #[trigger] removed@.contains(x) <==> lists(m0, steamid, x) && !ids.contains(x) by {
                if x == steamid {
                    if !ids.contains(x) {
                        if exists|j: int| 0 <= j < friendslist@.len() && friendslist@[j].steamid == steamid {
                            let j = choose|j: int| 0 <= j < friendslist@.len() && friendslist@[j].steamid == steamid;
                            assert(ids[j] == steamid);
                        }
                    }
                }
            }
            assert forall|f: u64| #[trigger] ids.contains(f) implies lists(self.friend_info@, f, steamid) by {
                let j = choose|j: int| 0 <= j < ids.len() && ids[j] == f;
                assert(friendslist@[j].steamid == f);
                if f != steamid {
                    assert(lists(m1, f, steamid));
                }
            }
            assert forall|o: u64| o != steamid && #[trigger] lists(self.friend_info@, o, steamid) implies lists(m1, o, steamid) by {
                assert(self.friend_info@.contains_key(o) == m1.contains_key(o));
                if m1.contains_key(o) {
                    assert(self.friend_info@[o] == m1[o]);
                }
            }
            assert forall|o: u64, x: u64|
                o != steamid && x != steamid implies (#[trigger] lists(self.friend_info@, o, x) <==> lists(m0, o, x)) by {
                assert(lists(m1, o, x) <==> lists(m0, o, x));
                assert(self.friend_info@.contains_key(o) == m1.contains_key(o));
                if m1.contains_key(o) {
                    assert(self.friend_info@[o] == m1[o]);
                }
            }
        }
        let mut r: usize = 0;
        while r < removed.len()
            invariant
                r <= removed@.len(),
                forall|x: u64| #[trigger] removed@.contains(x) <==> lists(m0, steamid, x) && !ids.contains(x),
                self.friend_info@.contains_key(steamid),
                self.friend_info@[steamid].public == Some(true),
                self.friend_info@[steamid].friends@ == new_list,
                forall|x: u64| #[trigger] lists(self.friend_info@, steamid, x) <==> ids.contains(x),
                forall|f: u64| #[trigger] ids.contains(f) ==> lists(self.friend_info@, f, steamid),
                forall|j: int| 0 <= j < r ==> !lists(self.friend_info@, #[trigger] removed@[j], steamid),
                forall|o: u64, x: u64|
                    o != steamid && x != steamid ==> (#[trigger] lists(self.friend_info@, o, x) <==> lists(m0, o, x)),
                forall|o: u64| o != steamid && #[trigger] lists(self.friend_info@, o, steamid) ==> lists(m1, o, steamid),
                self.user == old(self).user,
                self.game_info@ == old(self).game_info@,
                self.connected@ == old(self).connected@,
                self.parties_needs_update,
            decreases removed.len() - r,
        {
            let o = removed[r];
            proof {
                assert(removed@.contains(o));
            }
            let ghost c0 = self.friend_info@;
            self.remove_from_friends_list(o, steamid);
            proof {
                assert forall|f: u64| #[trigger] ids.contains(f) implies lists(self.friend_info@, f, steamid) by {
                    assert(lists(c0, f, steamid));
                    if f != steamid {
                        assert(f != o);
                        assert(self.friend_info@.contains_key(f) == c0.contains_key(f));
                        assert(self.friend_info@[f] == c0[f]);
                    }
                }
                assert forall|o2: u64| o2 != steamid && #[trigger] lists(self.friend_info@, o2, steamid) implies lists(m1, o2, steamid) by {
                    if o2 != o {
                        assert(self.friend_info@.contains_key(o2) == c0.contains_key(o2));
                        if c0.contains_key(o2) {
                            assert(self.friend_info@[o2] == c0[o2]);
                        }
                    }
                    assert(lists(c0, o2, steamid));
                }
                assert forall|o2: u64, x: u64|
                    o2 != steamid && x != steamid implies (#[trigger] lists(self.friend_info@, o2, x) <==> lists(m0, o2, x)) by {
                    assert(lists(c0, o2, x) <==> lists(m0, o2, x));
                    if o2 != o {
                        assert(self.friend_info@.contains_key(o2) == c0.contains_key(o2));
                        if c0.contains_key(o2) {
                            assert(self.friend_info@[o2] == c0[o2]);
                        }
                    }
                }
                assert forall|j: int| 0 <= j < r + 1 implies !lists(self.friend_info@, #[trigger] removed@[j], steamid) by {
                    let k = removed@[j];
                    if k != o && k != steamid {
                        assert(self.friend_info@.contains_key(k) == c0.contains_key(k));
                        if c0.contains_key(k) {
                            assert(self.friend_info@[k] == c0[k]);
                        }
                    }
                    if k == steamid {
                        assert(removed@.contains(k));
                    }
                }
            }
            r = r + 1;
        }
        let ghost m2 = self.friend_info@;
        self.update_user_friend_tag(steamid);
        proof {
            assert forall|o: u64|
                #[trigger] lists(m0, steamid, o) && !ids.contains(o) implies !lists(self.friend_info@, o, steamid) by {
                assert(removed@.contains(o));
                let j = choose|j: int| 0 <= j < removed@.len() && removed@[j] == o;
                assert(!lists(self.friend_info@, removed@[j], steamid));
            }
            if two_way(m0) {
                assert forall|a: u64, b: u64| #[trigger] lists(self.friend_info@, a, b) implies lists(self.friend_info@, b, a) by {
                    if a == steamid {
                        assert(ids.contains(b));
                    } else if b == steamid {
                        assert(lists(m2, a, steamid));
                        assert(lists(m1, a, steamid));
                        if exists|j: int| 0 <= j < friendslist@.len() && friendslist@[j].steamid == a {
                            let j = choose|j: int| 0 <= j < friendslist@.len() && friendslist@[j].steamid == a;
                            assert(ids[j] == a);
                            assert(ids.contains(a));
                        } else {
                            assert(lists(m0, a, steamid));
                            assert(lists(m0, steamid, a));
                            if !ids.contains(a) {
                                assert(removed@.contains(a));
                                let j = choose|j: int| 0 <= j < removed@.len() && removed@[j] == a;
                                assert(!lists(m2, removed@[j], steamid));
                            }
                        }
                    } else {
                        assert(lists(m0, a, b));
                        assert(lists(m0, b, a));
                    }
                }
            }
        }
    }

    /// Marks the friends list of `steamid` private (making an entry where
    /// there is none) and drops what is now stale: each player on the list
    /// whose own list is known but not public, and the player itself, stop
    /// listing each other. A list already marked private is left alone.
    pub fn mark_friends_list_private(&mut self, steamid: u64)
        ensures
            (old(self).friend_info@.contains_key(steamid) && old(self).friend_info@[steamid].public == Some(false))
                ==> final(self).friend_info@ == old(self).friend_info@ && final(self).tags@ == old(self).tags@,
            final(self).friend_info@.contains_key(steamid),
            final(self).friend_info@[steamid].public == Some(false),
            !(old(self).friend_info@.contains_key(steamid) && old(self).friend_info@[steamid].public == Some(false))
                ==> forall|f: u64|
                #[trigger] lists(old(self).friend_info@, steamid, f) ==> {
                    let stale = f == steamid || (old(self).friend_info@.contains_key(f)
                        && old(self).friend_info@[f].public != Some(true));
                    &&& stale ==> !lists(final(self).friend_info@, steamid, f) && !lists(final(self).friend_info@, f, steamid)
                    &&& !stale ==> lists(final(self).friend_info@, steamid, f)
                },
            final(self).user == old(self).user,
            final(self).game_info@ == old(self).game_info@,
            final(self).connected@ == old(self).connected@,
            final(self).parties_needs_update == old(self).parties_needs_update,
    {
        let ghost m0 = self.friend_info@;
        let mut fi = match self.friend_info.remove(&steamid) {
            Some(fi) => fi,
            None => FriendInfo::new(),
        };
        if fi.public == Some(false) {
            self.friend_info.insert(steamid, fi);
            proof {
                assert(self.friend_info@ =~= m0);
            }
            return;
        }
        fi.public = Some(false);
        let old_list = copy_friends(&fi.friends);
        self.friend_info.insert(steamid, fi);
        let ghost m1 = self.friend_info@;
        let mut i: usize = 0;
        while i < old_list.len()
            invariant
                i <= old_list@.len(),
                forall|x: u64| #[trigger] lists(m0, steamid, x) <==> friend_ids(old_list@).contains(x),
                self.friend_info@.contains_key(steamid),
                self.friend_info@[steamid].public == Some(false),
                forall|k: u64| k != steamid ==> (#[trigger] self.friend_info@.contains_key(k) ==> m0.contains_key(k)
                    && self.friend_info@[k].public == m0[k].public),
                forall|k: u64| k != steamid && #[trigger] m0.contains_key(k) && !(exists|j: int| 0 <= j < i && old_list@[j].steamid == k)
                    ==> self.friend_info@.contains_key(k) && self.friend_info@[k] == m0[k],
                forall|x: u64| #[trigger] lists(self.friend_info@, steamid, x) <==> lists(m0, steamid, x)
                    && !(is_stale(m0, steamid, x) && exists|j: int| 0 <= j < i && old_list@[j].steamid == x),
                forall|j: int| 0 <= j < i && is_stale(m0, steamid, #[trigger] old_list@[j].steamid) ==> !lists(self.friend_info@, old_list@[j].steamid, steamid),
                self.user == old(self).user,
                self.game_info@ == old(self).game_info@,
                self.connected@ == old(self).connected@,
                self.parties_needs_update == old(self).parties_needs_update,
            decreases old_list.len() - i,
        {
            let f = old_list[i].steamid;
            let ghost c0 = self.friend_info@;
            let drop = match self.friend_info.get(&f) {
                Some(fof) => fof.public != Some(true),
                None => false,
            };
            if drop {
                self.remove_from_friends_list(f, steamid);
            }
            proof {
                let seen_before = exists|j: int| 0 <= j < i && old_list@[j].steamid == f;
                if !seen_before && f != steamid {
                    assert(c0.contains_key(f) == m0.contains_key(f));
                }
                assert(drop ==> is_stale(m0, steamid, f)) by {
                    if drop && f != steamid {
                        assert(c0.contains_key(f));
                        assert(m0.contains_key(f) && c0[f].public == m0[f].public);
                    }
                }
                assert(is_stale(m0, steamid, f) && !seen_before ==> drop) by {
                    if is_stale(m0, steamid, f) && !seen_before {
                        if f == steamid {
                        } else {
                            assert(m0.contains_key(f));
                            assert(!(exists|j: int| 0 <= j < i && old_list@[j].steamid == f));
                            assert(c0.contains_key(f) && c0[f] == m0[f]);
                        }
                    }
                }
                assert forall|k: u64| k != steamid implies (#[trigger] self.friend_info@.contains_key(k) ==> m0.contains_key(k)
                    && self.friend_info@[k].public == m0[k].public) by {
                    if self.friend_info@.contains_key(k) {
                        assert(c0.contains_key(k));
                    }
                }
                assert forall|k: u64| k != steamid && #[trigger] m0.contains_key(k) && !(exists|j: int| 0 <= j < i + 1 && old_list@[j].steamid == k)
                    implies self.friend_info@.contains_key(k) && self.friend_info@[k] == m0[k] by {
                    assert(k != f) by {
                        assert(old_list@[i as int].steamid == f);
                    }
                    assert(c0.contains_key(k) && c0[k] == m0[k]);
                    assert(self.friend_info@.contains_key(k) == c0.contains_key(k));
                }
                assert forall|x: u64| #[trigger] lists(self.friend_info@, steamid, x) <==> lists(m0, steamid, x)
                    && !(is_stale(m0, steamid, x) && exists|j: int| 0 <= j < i + 1 && old_list@[j].steamid == x) by {
                    if x == f {
                        assert(old_list@[i as int].steamid == x);
                    } else if exists|j: int| 0 <= j < i + 1 && old_list@[j].steamid == x {
                        let j = choose|j: int| 0 <= j < i + 1 && old_list@[j].steamid == x;
                        assert(j < i);
                    }
                }
                assert forall|j: int| 0 <= j < i + 1 && is_stale(m0, steamid, #[trigger] old_list@[j].steamid) implies !lists(self.friend_info@, old_list@[j].steamid, steamid) by {
                    let k = old_list@[j].steamid;
                    if j < i {
                        assert(!lists(c0, k, steamid));
                        if k != f && k != steamid {
                            assert(self.friend_info@.contains_key(k) == c0.contains_key(k));
                            if c0.contains_key(k) {
                                assert(self.friend_info@[k] == c0[k]);
                            }
                        }
                    } else {
                        if !drop {
                            assert(seen_before);
                            let j2 = choose|j2: int| 0 <= j2 < i && old_list@[j2].steamid == f;
                            assert(!lists(c0, old_list@[j2].steamid, steamid));
                        }
                    }
                }
            }
            i = i + 1;
        }
        proof {
            assert forall|f: u64| #[trigger] lists(m0, steamid, f) implies {
                &&& is_stale(m0, steamid, f) ==> !lists(self.friend_info@, steamid, f) && !lists(self.friend_info@, f, steamid)
                &&& !is_stale(m0, steamid, f) ==> lists(self.friend_info@, steamid, f)
            } by {
                let j = choose|j: int| 0 <= j < friend_ids(old_list@).len() && friend_ids(old_list@)[j] == f;
                assert(old_list@[j].steamid == f);
                if is_stale(m0, steamid, f) {
                    assert(!lists(self.friend_info@, old_list@[j].steamid, steamid));
                }
            }
        }
    }

    /// Moves the players who are no longer on the server into the history:
    /// a connected player with no game information, or one unseen for more
    /// than `CYCLE_LIMIT` cycles, leaves `connected` and goes to the back of
    /// `history`. Every player's unseen count then goes up by one, and the
    /// parties are found again where the connected players or the friends
    /// lists changed.
    pub fn refresh(&mut self)
        ensures
            final(self).connected@ == old(self).connected@.filter(still_here(old(self).game_info@)),
            final(self).history@ == old(self).history@.filter(
                not_in(old(self).connected@.filter(has_left(old(self).game_info@))),
            ) + old(self).connected@.filter(has_left(old(self).game_info@)),
            final(self).game_info@.dom() == old(self).game_info@.dom(),
            forall|k: u64| #[trigger] final(self).game_info@.contains_key(k) ==> final(self).game_info@[k]@
                == next_cycle_of(old(self).game_info@[k]@),
            (old(self).parties_needs_update || old(self).connected@.filter(has_left(old(self).game_info@)).len() > 0)
                ==> parties_found(final(self).parties.view_parties(), final(self).friend_info@, final(self).connected@),
            !(old(self).parties_needs_update || old(self).connected@.filter(has_left(old(self).game_info@)).len() > 0)
                ==> final(self).parties == old(self).parties,
            !final(self).parties_needs_update,
            final(self).friend_info@ == old(self).friend_info@,
            final(self).tags@ == old(self).tags@,
            final(self).user == old(self).user,
    {
        let ghost gi0 = self.game_info@;
        let ghost c0 = self.connected@;
        let ghost h0 = self.history@;
        let mut unaccounted: Vec<u64> = Vec::new();
        let mut kept: Vec<u64> = Vec::new();
        let mut i: usize = 0;
        while i < self.connected.len()
            invariant
                i <= c0.len(),
                self.connected@ == c0,
                self.game_info@ == gi0,
                unaccounted@ == c0.take(i as int).filter(has_left(gi0)),
                kept@ == c0.take(i as int).filter(still_here(gi0)),
            decreases c0.len() - i,
        {
            let id = self.connected[i];
            let drop = match self.game_info.get(&id) {
                Some(gi) => gi.should_prune(),
                None => true,
            };
            proof {
                reveal(Seq::filter);
                assert(c0.take(i + 1).drop_last() =~= c0.take(i as int));
                assert(drop == gone(gi0, id));
            }
            if drop {
                unaccounted.push(id);
            } else {
                kept.push(id);
            }
            i = i + 1;
        }
        proof {
            assert(c0.take(c0.len() as int) =~= c0);
        }
        if unaccounted.len() > 0 {
            self.parties_needs_update = true;
        }
        self.connected = kept;
        let mut history: VecDeque<u64> = VecDeque::new();
        let mut j: usize = 0;
        while j < self.history.len()
            invariant
                j <= h0.len(),
                self.history@ == h0,
                history@ == h0.take(j as int).filter(not_in(unaccounted@)),
            decreases h0.len() - j,
        {
            let p = self.history[j];
            proof {
                reveal(Seq::filter);
                assert(h0.take(j + 1).drop_last() =~= h0.take(j as int));
            }
            if !contains_id(&unaccounted, p) {
                history.push_back(p);
            }
            j = j + 1;
        }
        proof {
            assert(h0.take(h0.len() as int) =~= h0);
        }
        let mut u: usize = 0;
        let ghost hf = history@;
        while u < unaccounted.len()
            invariant
                u <= unaccounted@.len(),
                history@ == hf + unaccounted@.take(u as int),
            decreases unaccounted.len() - u,
        {
            history.push_back(unaccounted[u]);
            u = u + 1;
            assert(history@ =~= hf + unaccounted@.take(u as int));
        }
        proof {
            assert(unaccounted@.take(unaccounted@.len() as int) =~= unaccounted@);
        }
        self.history = history;
        let ghost conn1 = self.connected@;
        let ghost hist1 = self.history@;
        let ghost fi1 = self.friend_info@;
        let ghost tags1 = self.tags@;
        let ghost parties1 = self.parties;
        let ghost flag1 = self.parties_needs_update;
        let ks = keys_of(&self.game_info);
        let mut n: usize = 0;
        while n < ks.len()
            invariant
                self.connected@ == conn1,
                self.history@ == hist1,
                self.friend_info@ == fi1,
                self.tags@ == tags1,
                self.parties == parties1,
                self.parties_needs_update == flag1,
                self.user == old(self).user,
                ks@.to_set() == gi0.dom(),
                ks@.no_duplicates(),
                n <= ks@.len(),
                self.game_info@.dom() == gi0.dom(),
                forall|m: int| 0 <= m < n ==> #[trigger] self.game_info@[ks@[m]]@ == next_cycle_of(gi0[ks@[m]]@),
                forall|m: int| n <= m < ks@.len() ==> #[trigger] self.game_info@[ks@[m]] == gi0[ks@[m]],
            decreases ks.len() - n,
        {
            let k = ks[n];
            proof {
                assert(ks@.to_set().contains(k));
            }
            match self.game_info.remove(&k) {
                Some(mut g) => {
                    g.next_cycle();
                    self.game_info.insert(k, g);
                },
                None => {},
            }
            proof {
                assert forall|m: int| 0 <= m < n + 1 implies #[trigger] self.game_info@[ks@[m]]@ == next_cycle_of(gi0[ks@[m]]@) by {
                    if m < n {
                        assert(ks@[m] != ks@[n as int]);
                    }
                }
                assert forall|m: int| n + 1 <= m < ks@.len() implies #[trigger] self.game_info@[ks@[m]] == gi0[ks@[m]] by {
                    assert(ks@[m] != ks@[n as int]);
                }
                assert(self.game_info@.dom() =~= gi0.dom());
            }
            n = n + 1;
        }
        proof {
            assert forall|k: u64| #[trigger] self.game_info@.contains_key(k) implies self.game_info@[k]@ == next_cycle_of(gi0[k]@) by {
                assert(ks@.to_set().contains(k));
                let m = choose|m: int| 0 <= m < ks@.len() && ks@[m] == k;
                assert(self.game_info@[ks@[m]]@ == next_cycle_of(gi0[ks@[m]]@));
            }
        }
        if self.parties_needs_update {
            self.parties.find_parties(&self.friend_info, self.connected.as_slice());
            self.parties_needs_update = false;
        }
    }

    /// Takes in a line of `status`: the player joins `connected` if not
    /// there (the parties are then due for an update), its game information
    /// is made or updated from the line, and its record takes the line's
    /// name.
    pub fn handle_status_line(&mut self, status: StatusLine)
        ensures
            final(self).connected@ == if old(self).connected@.contains(status.steamid) {
                old(self).connected@
            } else {
                old(self).connected@.push(status.steamid)
            },
            final(self).parties_needs_update == (old(self).parties_needs_update || !old(self).connected@.contains(status.steamid)),
            final(self).game_info@.dom() == old(self).game_info@.dom().insert(status.steamid),
            final(self).game_info@[status.steamid]@ == status_update(
                if old(self).game_info@.contains_key(status.steamid) {
                    old(self).game_info@[status.steamid]@
                } else {
                    new_game_info()
                },
                status,
            ),
            forall|k: u64| k != status.steamid && #[trigger] old(self).game_info@.contains_key(k)
                ==> final(self).game_info@[k] == old(self).game_info@[k],
            (old(self).game_info@.contains_key(status.steamid) && old(self).game_info@[status.steamid].name@ == status.name@)
                ==> final(self).records.records@ == old(self).records.records@,
            !(old(self).game_info@.contains_key(status.steamid) && old(self).game_info@[status.steamid].name@ == status.name@)
                ==> name_updated(old(self).records.records@, final(self).records.records@, status.steamid, status.name@),
            final(self).friend_info@ == old(self).friend_info@,
            final(self).tags@ == old(self).tags@,
            final(self).user == old(self).user,
    {
        let id = status.steamid;
        if !contains_id(self.connected.as_slice(), id) {
            self.connected.push(id);
            self.parties_needs_update = true;
        }
        match self.game_info.remove(&id) {
            Some(mut gi) => {
                if !string_eq_str(&status.name, gi.name.as_str()) {
                    self.records.update_name(id, status.name.as_str());
                }
                gi.update_from_status(status);
                self.game_info.insert(id, gi);
            },
            None => {
                let gi = GameInfo::new_from_status(status);
                self.records.update_name(id, gi.name.as_str());
                self.game_info.insert(id, gi);
            },
        }
    }

    /// Takes in the players of a `g15_dumpplayer` dump, in order; slots
    /// without a SteamID are skipped. Each player joins `connected` if not
    /// there (the parties are then due for an update); its game information
    /// is updated from the slot, or made from it where the slot has a
    /// userid; its record takes the slot's name.
    pub fn handle_g15(&mut self, players: Vec<G15Player>)
        ensures
            final(self).connected@ == connect_all(old(self).connected@, g15_views(players@)),
            final(self).parties_needs_update == (old(self).parties_needs_update
                || final(self).connected@.len() > old(self).connected@.len()),
            final(self).game_info@.map_values(|g: GameInfo| g@) == g15_fold(
                old(self).game_info@.map_values(|g: GameInfo| g@),
                g15_views(players@),
            ),
            final(self).records.records@.dom() == old(self).records.records@.dom(),
            final(self).friend_info@ == old(self).friend_info@,
            final(self).tags@ == old(self).tags@,
            final(self).user == old(self).user,
    {
        let ghost c0 = self.connected@;
        let ghost g0 = self.game_info@.map_values(|g: GameInfo| g@);
        let ghost flag0 = self.parties_needs_update;
        let ghost views = g15_views(players@);
        let ghost all = players@;
        for g15 in it: players
            invariant
                it.seq() == all,
                views == g15_views(all),
                self.connected@ == connect_all(c0, views.take(it.index())),
                self.connected@.len() >= c0.len(),
                self.parties_needs_update == (flag0 || self.connected@.len() > c0.len()),
                self.game_info@.map_values(|g: GameInfo| g@) == g15_fold(g0, views.take(it.index())),
                self.records.records@.dom() == old(self).records.records@.dom(),
                self.friend_info@ == old(self).friend_info@,
                self.tags@ == old(self).tags@,
                self.user == old(self).user,
        {
            let ghost idx = it.index();
            let ghost before_map = self.game_info@.map_values(|g: GameInfo| g@);
            proof {
                assert(views.take(idx + 1).drop_last() =~= views.take(idx));
                assert(views.take(idx + 1).last() == g15@);
            }
            match g15.steamid {
                None => {},
                Some(id) => {
                    if !contains_id(self.connected.as_slice(), id) {
                        self.connected.push(id);
                        self.parties_needs_update = true;
                    }
                    match self.game_info.remove(&id) {
                        Some(mut gi) => {
                            match &g15.name {
                                Some(name) => self.records.update_name(id, name.as_str()),
                                None => {},
                            }
                            gi.update_from_g15(g15);
                            self.game_info.insert(id, gi);
                        },
                        None => {
                            match GameInfo::new_from_g15(g15) {
                                Some(gi) => {
                                    self.records.update_name(id, gi.name.as_str());
                                    self.game_info.insert(id, gi);
                                },
                                None => {},
                            }
                        },
                    }
                },
            }
            proof {
                assert(self.game_info@.map_values(|g: GameInfo| g@) =~= g15_fold(g0, views.take(idx + 1)));
            }
        }
        proof {
            assert(views.take(views.len() as int) =~= views);
        }
    }

    /// The name of a player: from the game, else from Steam, else the first
    /// name the playerlist recorded.
    pub fn get_name(&self, steamid: u64) -> (r: Option<&str>)
        ensures
            match r {
                Some(n) => spec_name(*self, steamid) == Some(n@),
                None => spec_name(*self, steamid) is None,
            },
            self.game_info@.contains_key(steamid) ==> (r matches Some(n) && n@ == self.game_info@[steamid].name@),
            !self.game_info@.contains_key(steamid) && self.steam_info@.contains_key(steamid)
                ==> (r matches Some(n) && n@ == self.steam_info@[steamid].account_name@),
            !self.game_info@.contains_key(steamid) && !self.steam_info@.contains_key(steamid) ==> match r {
                Some(n) => self.records.records@.contains_key(steamid)
                    && self.records.records@[steamid].previous_names@.len() > 0
                    && n@ == self.records.records@[steamid].previous_names@[0]@,
                None => !self.records.records@.contains_key(steamid)
                    || self.records.records@[steamid].previous_names@.len() == 0,
            },
    {
        match self.game_info.get(&steamid) {
            Some(gi) => {
                return Some(gi.name.as_str());
            },
            None => {},
        }
        match self.steam_info.get(&steamid) {
            Some(si) => {
                return Some(si.account_name.as_str());
            },
            None => {},
        }
        match self.records.records.get(&steamid) {
            Some(r) => {
                if r.previous_names.len() > 0 {
                    Some(r.previous_names[0].as_str())
                } else {
                    None
                }
            },
            None => None,
        }
    }

    /// The first connected player whose game name is `name` (see
    /// `first_named`).
    pub fn get_steamid_from_name(&self, name: &str) -> (r: Option<u64>)
        ensures
            r == first_named(self.connected@, self.game_info@, name@),
    {
        let mut i: usize = 0;
        assert(self.connected@.subrange(0, self.connected@.len() as int) =~= self.connected@);
        while i < self.connected.len()
            invariant
                i <= self.connected@.len(),
                first_named(self.connected@, self.game_info@, name@) == first_named(
                    self.connected@.subrange(i as int, self.connected@.len() as int),
                    self.game_info@,
                    name@,
                ),
            decreases self.connected.len() - i,
        {
            proof {
                assert(self.connected@.subrange(i as int, self.connected@.len() as int).drop_first()
                    =~= self.connected@.subrange(i + 1, self.connected@.len() as int));
            }
            let id = self.connected[i];
            let hit = match self.game_info.get(&id) {
                Some(gi) => string_eq_str(&gi.name, name),
                None => false,
            };
            if hit {
                return Some(id);
            }
            i = i + 1;
        }
        None
    }

    /// The game name of each connected player that has one, with its
    /// SteamID, in the order of `connected`. Collected into a map, a name
    /// held by several players goes to the last of them.
    pub fn get_name_to_steam_ids_map(&self) -> (r: Vec<(String, u64)>)
        ensures
            r@.len() <= self.connected@.len(),
            forall|k: int| 0 <= k < r@.len() ==> {
                let id = #[trigger] r@[k].1;
                self.game_info@.contains_key(id) && r@[k].0@ == self.game_info@[id].name@
            },
            r@.map_values(|p: (String, u64)| p.1) == self.connected@.filter(|s: u64| self.game_info@.contains_key(s)),
    {
        let mut r: Vec<(String, u64)> = Vec::new();
        let mut i: usize = 0;
        while i < self.connected.len()
            invariant
                i <= self.connected@.len(),
                r@.len() <= i,
                forall|k: int| 0 <= k < r@.len() ==> {
                    let id = #[trigger] r@[k].1;
                    self.game_info@.contains_key(id) && r@[k].0@ == self.game_info@[id].name@
                },
                r@.map_values(|p: (String, u64)| p.1) == self.connected@.take(i as int).filter(|s: u64| self.game_info@.contains_key(s)),
            decreases self.connected.len() - i,
        {
            let id = self.connected[i];
            let ghost before = r@;
            proof {
                reveal(Seq::filter);
                assert(self.connected@.take(i + 1).drop_last() =~= self.connected@.take(i as int));
            }
            match self.game_info.get(&id) {
                Some(gi) => {
                    r.push((gi.name.clone(), id));
                    proof {
                        assert(r@.map_values(|p: (String, u64)| p.1) =~= before.map_values(|p: (String, u64)| p.1).push(id));
                    }
                },
                None => {},
            }
            i = i + 1;
        }
        proof {
            assert(self.connected@.take(self.connected@.len() as int) =~= self.connected@);
        }
        r
    }

    /// Adds `steamid` to the friends list of `friend.steamid` (making one
    /// where there is none), then updates that player's friend tag.
    fn propagate_friend(&mut self, steamid: u64, friend: &Friend)
        ensures
            final(self).friend_info@.contains_key(friend.steamid),
            final(self).friend_info@[friend.steamid].friends@ == (if old(self).friend_info@.contains_key(friend.steamid) {
                old(self).friend_info@[friend.steamid].friends@
            } else {
                Seq::empty()
            }).push(Friend { steamid, friend_since: friend.friend_since }),
            final(self).friend_info@[friend.steamid].public == if old(self).friend_info@.contains_key(friend.steamid) {
                old(self).friend_info@[friend.steamid].public
            } else {
                None
            },
            forall|k: u64| k != friend.steamid ==> #[trigger] final(self).friend_info@.contains_key(k) == old(self).friend_info@.contains_key(k)
                && (old(self).friend_info@.contains_key(k) ==> final(self).friend_info@[k] == old(self).friend_info@[k]),
            forall|k: u64| k != friend.steamid ==> #[trigger] final(self).tags@.contains_key(k) == old(self).tags@.contains_key(k)
                && (old(self).tags@.contains_key(k) ==> final(self).tags@[k] == old(self).tags@[k]),
            final(self).game_info@ == old(self).game_info@,
            final(self).connected@ == old(self).connected@,
            final(self).user == old(self).user,
            final(self).parties_needs_update == old(self).parties_needs_update,
    {
        let mut fi = match self.friend_info.remove(&friend.steamid) {
            Some(fi) => fi,
            None => FriendInfo::new(),
        };
        fi.friends.push(Friend { steamid, friend_since: friend.friend_since });
        self.friend_info.insert(friend.steamid, fi);
        self.update_user_friend_tag(friend.steamid);
    }

    /// Replaces the friends list of `steamid` by `friends`, marks it public,
    /// and returns the players that were on the old list and are not on the
    /// new one.
    fn set_friends(&mut self, steamid: u64, friends: Vec<Friend>) -> (removed: Vec<u64>)
        ensures
            final(self).friend_info@.contains_key(steamid),
            final(self).friend_info@[steamid].public == Some(true),
            final(self).friend_info@[steamid].friends@ == friends@,
            forall|k: u64| k != steamid ==> #[trigger] final(self).friend_info@.contains_key(k) == old(self).friend_info@.contains_key(k)
                && (old(self).friend_info@.contains_key(k) ==> final(self).friend_info@[k] == old(self).friend_info@[k]),
            forall|x: u64| #[trigger] removed@.contains(x) <==> lists(old(self).friend_info@, steamid, x)
                && !friend_ids(friends@).contains(x),
            final(self).tags@ == old(self).tags@,
            final(self).game_info@ == old(self).game_info@,
            final(self).connected@ == old(self).connected@,
            final(self).user == old(self).user,
            final(self).parties_needs_update,
    {
        self.parties_needs_update = true;
        let old_list = match self.friend_info.remove(&steamid) {
            Some(fi) => fi.friends,
            None => Vec::new(),
        };
        proof {
            assert(forall|x: u64| lists(old(self).friend_info@, steamid, x) <==> friend_ids(old_list@).contains(x));
        }
        let new_info = FriendInfo { public: Some(true), friends };
        let mut removed: Vec<u64> = Vec::new();
        let mut i: usize = 0;
        while i < old_list.len()
            invariant
                i <= old_list@.len(),
                forall|x: u64| #[trigger] removed@.contains(x) <==> (exists|j: int| 0 <= j < i && old_list@[j].steamid == x)
                    && !friend_ids(new_info.friends@).contains(x),
            decreases old_list.len() - i,
        {
            let id = old_list[i].steamid;
            let ghost before = removed@;
            if !new_info.lists(id) {
                removed.push(id);
            }
            proof {
                assert forall|x: u64| #[trigger] removed@.contains(x) <==> (exists|j: int| 0 <= j < i + 1 && old_list@[j].steamid == x)
                    && !friend_ids(new_info.friends@).contains(x) by {
                    if before.contains(x) {
                        let m = choose|m: int| 0 <= m < before.len() && before[m] == x;
                        assert(removed@[m] == x);
                    }
                    if removed@.contains(x) && !before.contains(x) {
                        assert(x == id);
                    }
                    if x == id && !friend_ids(new_info.friends@).contains(x) {
                        assert(removed@[removed@.len() - 1] == x);
                    }
                }
            }
            i = i + 1;
        }
        proof {
            assert forall|x: u64| #[trigger] removed@.contains(x) <==> lists(old(self).friend_info@, steamid, x)
                && !friend_ids(new_info.friends@).contains(x) by {
                if friend_ids(old_list@).contains(x) {
                    let j = choose|j: int| 0 <= j < friend_ids(old_list@).len() && friend_ids(old_list@)[j] == x;
                    assert(old_list@[j].steamid == x);
                }
                if exists|j: int| 0 <= j < old_list@.len() && old_list@[j].steamid == x {
                    let j = choose|j: int| 0 <= j < old_list@.len() && old_list@[j].steamid == x;
                    assert(friend_ids(old_list@)[j] == x);
                }
            }
        }
        self.friend_info.insert(steamid, new_info);
        removed
    }

    /// Takes `target` off the friends list of `owner`, dropping the list
    /// where it is then empty and its visibility not known.
    fn drop_friend(&mut self, owner: u64, target: u64)
        ensures
            forall|x: u64| #[trigger] lists(final(self).friend_info@, owner, x) <==> lists(old(self).friend_info@, owner, x) && x != target,
            forall|k: u64| k != owner ==> #[trigger] final(self).friend_info@.contains_key(k) == old(self).friend_info@.contains_key(k)
                && (old(self).friend_info@.contains_key(k) ==> final(self).friend_info@[k] == old(self).friend_info@[k]),
            final(self).friend_info@.contains_key(owner) ==> old(self).friend_info@.contains_key(owner)
                && final(self).friend_info@[owner].public == old(self).friend_info@[owner].public,
            old(self).friend_info@.contains_key(owner) && old(self).friend_info@[owner].public is Some
                ==> final(self).friend_info@.contains_key(owner),
            old(self).friend_info@.contains_key(owner) && old(self).friend_info@[owner].public is Some
                && !lists(old(self).friend_info@, owner, target)
                ==> final(self).friend_info@[owner].friends@ == old(self).friend_info@[owner].friends@,
            final(self).tags@ == old(self).tags@,
            final(self).game_info@ == old(self).game_info@,
            final(self).connected@ == old(self).connected@,
            final(self).user == old(self).user,
            final(self).parties_needs_update == old(self).parties_needs_update,
    {
        match self.friend_info.remove(&owner) {
            Some(fi) => {
                let kept = friends_without(&fi.friends, target);
                let ghost kept_ids = friend_ids(kept@);
                if kept.len() > 0 || fi.public.is_some() {
                    self.friend_info.insert(owner, FriendInfo { public: fi.public, friends: kept });
                    proof {
                        assert forall|x: u64| #[trigger] lists(self.friend_info@, owner, x) <==> lists(old(self).friend_info@, owner, x) && x != target by {
                            assert(kept_ids.contains(x) <==> friend_ids(fi.friends@).contains(x) && x != target);
                        }
                    }
                } else {
                    proof {
                        assert forall|x: u64| #[trigger] lists(self.friend_info@, owner, x) <==> lists(old(self).friend_info@, owner, x) && x != target by {
                            assert(kept_ids.contains(x) <==> friend_ids(fi.friends@).contains(x) && x != target);
                            assert(!kept_ids.contains(x));
                        }
                    }
                }
            },
            None => {},
        }
    }

    /// Takes each of two players off the other's friends list, then updates
    /// the friend tag of `friend_to_remove`.
    fn remove_from_friends_list(&mut self, steamid: u64, friend_to_remove: u64)
        ensures
            forall|x: u64| #[trigger] lists(final(self).friend_info@, steamid, x) <==> lists(old(self).friend_info@, steamid, x) && x != friend_to_remove,
            forall|x: u64| #[trigger] lists(final(self).friend_info@, friend_to_remove, x) <==> lists(old(self).friend_info@, friend_to_remove, x) && x != steamid,
            forall|k: u64| k != steamid && k != friend_to_remove ==> #[trigger] final(self).friend_info@.contains_key(k) == old(self).friend_info@.contains_key(k)
                && (old(self).friend_info@.contains_key(k) ==> final(self).friend_info@[k] == old(self).friend_info@[k]),
            forall|k: u64| #[trigger] final(self).friend_info@.contains_key(k) ==> old(self).friend_info@.contains_key(k)
                && final(self).friend_info@[k].public == old(self).friend_info@[k].public,
            forall|k: u64| #[trigger] old(self).friend_info@.contains_key(k) && old(self).friend_info@[k].public is Some
                ==> final(self).friend_info@.contains_key(k),
            old(self).friend_info@.contains_key(friend_to_remove) && old(self).friend_info@[friend_to_remove].public is Some
                && !lists(old(self).friend_info@, friend_to_remove, steamid)
                ==> final(self).friend_info@[friend_to_remove].friends@ == old(self).friend_info@[friend_to_remove].friends@,
            forall|k: u64| k != friend_to_remove ==> #[trigger] final(self).tags@.contains_key(k) == old(self).tags@.contains_key(k)
                && (old(self).tags@.contains_key(k) ==> final(self).tags@[k] == old(self).tags@[k]),
            final(self).game_info@ == old(self).game_info@,
            final(self).connected@ == old(self).connected@,
            final(self).user == old(self).user,
            final(self).parties_needs_update == old(self).parties_needs_update,
    {
        let ghost m0 = self.friend_info@;
        self.drop_friend(steamid, friend_to_remove);
        let ghost m1 = self.friend_info@;
        self.drop_friend(friend_to_remove, steamid);
        let ghost m2 = self.friend_info@;
        self.update_user_friend_tag(friend_to_remove);
        proof {
            assert forall|x: u64| #[trigger] lists(m2, steamid, x) <==> lists(m0, steamid, x) && x != friend_to_remove by {
                assert(lists(m1, steamid, x) <==> lists(m0, steamid, x) && x != friend_to_remove);
                if steamid != friend_to_remove {
                    assert(m2.contains_key(steamid) == m1.contains_key(steamid));
                    if m1.contains_key(steamid) {
                        assert(m2[steamid] == m1[steamid]);
                    }
                } else {
                    assert(lists(m2, steamid, x) <==> lists(m1, steamid, x) && x != steamid);
                }
            }
            assert forall|x: u64| #[trigger] lists(m2, friend_to_remove, x) <==> lists(m0, friend_to_remove, x) && x != steamid by {
                assert(lists(m2, friend_to_remove, x) <==> lists(m1, friend_to_remove, x) && x != steamid);
                if steamid != friend_to_remove {
                    assert(m1.contains_key(friend_to_remove) == m0.contains_key(friend_to_remove));
                    if m0.contains_key(friend_to_remove) {
                        assert(m1[friend_to_remove] == m0[friend_to_remove]);
                    }
                } else {
                    assert(lists(m1, steamid, x) <==> lists(m0, steamid, x) && x != steamid);
                }
            }
            assert forall|k: u64| #[trigger] m2.contains_key(k) implies m0.contains_key(k) && m2[k].public == m0[k].public by {
                if k == steamid || k == friend_to_remove {
                    if m1.contains_key(k) {
                    }
                }
            }
        }
    }
}

/// The position of the first string in `v` with the text of `t`.
fn index_of_str(v: &Vec<String>, t: &str) -> (r: Option<usize>)
    ensures
        r is None <==> !strings_view(v@).contains(t@),
        r matches Some(i) ==> i < v@.len() && v@[i as int]@ == t@,
{
    let mut i: usize = 0;
    while i < v.len()
        invariant
            i <= v@.len(),
            forall|j: int| 0 <= j < i ==> v@[j]@ != t@,
        decreases v.len() - i,
    {
        if string_eq_str(&v[i], t) {
            proof {
                assert(strings_view(v@)[i as int] == t@);
            }
            return Some(i);
        }
        i = i + 1;
    }
    proof {
        if strings_view(v@).contains(t@) {
            let j = choose|j: int| 0 <= j < strings_view(v@).len() && strings_view(v@)[j] == t@;
            assert(v@[j]@ == t@);
        }
    }
    None
}

/// The strings of `v` whose text is not that of `t`, in order.
fn without_str(v: &Vec<String>, t: &str) -> (r: Vec<String>)
    ensures
        strings_view(r@).to_set() == strings_view(v@).to_set().remove(t@),
{
    let mut r: Vec<String> = Vec::new();
    let mut i: usize = 0;
    while i < v.len()
        invariant
            i <= v@.len(),
            forall|x: Seq<char>| #[trigger] strings_view(r@).contains(x) <==> (exists|j: int| 0 <= j < i && v@[j]@ == x) && x != t@,
        decreases v.len() - i,
    {
        let ghost before = r@;
        if !string_eq_str(&v[i], t) {
            r.push(v[i].clone());
            proof {
                assert(strings_view(r@) =~= strings_view(before).push(v@[i as int]@));
            }
        }
        proof {
            assert forall|x: Seq<char>| #[trigger] strings_view(r@).contains(x) <==> (exists|j: int| 0 <= j < i + 1 && v@[j]@ == x) && x != t@ by {
                if strings_view(r@).contains(x) && !strings_view(before).contains(x) {
                    assert(x == v@[i as int]@);
                }
                if (exists|j: int| 0 <= j < i + 1 && v@[j]@ == x) && x != t@ {
                    let j = choose|j: int| 0 <= j < i + 1 && v@[j]@ == x;
                    if j == i {
                        assert(strings_view(r@)[strings_view(r@).len() - 1] == x);
                    } else {
                        assert(strings_view(before).contains(x));
                        let m = choose|m: int| 0 <= m < strings_view(before).len() && strings_view(before)[m] == x;
                        assert(strings_view(r@)[m] == x);
                    }
                }
                if strings_view(before).contains(x) {
                    let m = choose|m: int| 0 <= m < strings_view(before).len() && strings_view(before)[m] == x;
                    assert(strings_view(r@)[m] == x);
                }
            }
        }
        i = i + 1;
    }
    proof {
        assert forall|x: Seq<char>| strings_view(r@).to_set().contains(x) <==> strings_view(v@).to_set().remove(t@).contains(x) by {
            if strings_view(v@).contains(x) {
                let j = choose|j: int| 0 <= j < strings_view(v@).len() && strings_view(v@)[j] == x;
                assert(v@[j]@ == x);
            }
            if exists|j: int| 0 <= j < v@.len() && v@[j]@ == x {
                let j = choose|j: int| 0 <= j < v@.len() && v@[j]@ == x;
                assert(strings_view(v@)[j] == x);
            }
        }
        assert(strings_view(r@).to_set() =~= strings_view(v@).to_set().remove(t@));
    }
    r
}

/// The friends on `v` other than `id`, in order.
fn friends_without(v: &Vec<Friend>, id: u64) -> (r: Vec<Friend>)
    ensures
        forall|x: u64| #[trigger] friend_ids(r@).contains(x) <==> friend_ids(v@).contains(x) && x != id,
        !friend_ids(v@).contains(id) ==> r@ == v@,
{
    let mut r: Vec<Friend> = Vec::new();
    let mut i: usize = 0;
    while i < v.len()
        invariant
            i <= v@.len(),
            forall|x: u64| #[trigger] friend_ids(r@).contains(x) <==> (exists|j: int| 0 <= j < i && v@[j].steamid == x) && x != id,
            !friend_ids(v@).contains(id) ==> r@ == v@.subrange(0, i as int),
        decreases v.len() - i,
    {
        let ghost before = r@;
        proof {
            assert(friend_ids(v@)[i as int] == v@[i as int].steamid);
        }
        if v[i].steamid != id {
            r.push(v[i]);
        }
        proof {
            if !friend_ids(v@).contains(id) {
                assert(r@ =~= v@.subrange(0, i + 1));
            }
        }
        proof {
            assert forall|x: u64| #[trigger] friend_ids(r@).contains(x) <==> (exists|j: int| 0 <= j < i + 1 && v@[j].steamid == x) && x != id by {
                if friend_ids(before).contains(x) {
                    let m = choose|m: int| 0 <= m < friend_ids(before).len() && friend_ids(before)[m] == x;
                    assert(friend_ids(r@)[m] == x);
                }
                if friend_ids(r@).contains(x) && !friend_ids(before).contains(x) {
                    let m = choose|m: int| 0 <= m < friend_ids(r@).len() && friend_ids(r@)[m] == x;
                    if m < before.len() {
                        assert(friend_ids(before)[m] == x);
                    }
                    assert(x == v@[i as int].steamid);
                }
                if x == v@[i as int].steamid && x != id {
                    assert(friend_ids(r@)[friend_ids(r@).len() - 1] == x);
                }
                if (exists|j: int| 0 <= j < i && v@[j].steamid == x) && x != id {
                    assert(friend_ids(before).contains(x));
                }
            }
        }
        i = i + 1;
    }
    proof {
        if !friend_ids(v@).contains(id) {
            assert(v@.subrange(0, v@.len() as int) =~= v@);
        }
        assert forall|x: u64| #[trigger] friend_ids(r@).contains(x) <==> friend_ids(v@).contains(x) && x != id by {
            if friend_ids(v@).contains(x) {
                let j = choose|j: int| 0 <= j < friend_ids(v@).len() && friend_ids(v@)[j] == x;
                assert(v@[j].steamid == x);
            }
            if exists|j: int| 0 <= j < v@.len() && v@[j].steamid == x {
                let j = choose|j: int| 0 <= j < v@.len() && v@[j].steamid == x;
                assert(friend_ids(v@)[j] == x);
            }
        }
    }
    r
}

/// A player as the web interface shows them.
pub struct Player<'a> {
    pub is_self: bool,
    pub name: &'a str,
    pub steamid: u64,
    pub steam_info: Option<&'a SteamInfo>,
    pub game_info: Option<&'a GameInfo>,
    pub custom_data: JsonValue,
    pub local_verdict: Verdict,
    pub convicted: bool,
    pub tags: Vec<&'a str>,
    pub previous_names: Vec<&'a str>,
    pub friends: Vec<&'a Friend>,
    pub friends_is_public: Option<bool>,
}

/// The text of each string slice in `v`.
pub open spec fn strs_view(v: Seq<&str>) -> Seq<Seq<char>> {
    v.map_values(|s: &str| s@)
}

/// The name the web interface shows for a player: from the game, else from
/// Steam, else empty.
pub open spec fn shown_name(p: Players, id: u64) -> Seq<char> {
    if p.game_info@.contains_key(id) {
        p.game_info@[id].name@
    } else if p.steam_info@.contains_key(id) {
        p.steam_info@[id].account_name@
    } else {
        Seq::empty()
    }
}

/// Whether `p` is what the web interface shows of player `steamid`: whether
/// it is the user, its name (see `shown_name`), what the game and Steam tell
/// of it, the user's record of it (custom data, verdict, previous names; an
/// empty object and `Player` where there is none), its tags, and its friends
/// list where it is known.
pub open spec fn shows_player(players: Players, steamid: u64, p: Player) -> bool {
    &&& (p.name@ == shown_name(players, steamid))
    &&& (p.steam_info == if players.steam_info@.contains_key(steamid) {
        Some(&players.steam_info@[steamid])
    } else {
        None
    })
    &&& shows_player_record(players, steamid, p)
}

/// Whether `p` is what the web interface shows of player `steamid`, leaving
/// aside its name and Steam information (see `shows_player`).
pub open spec fn shows_player_record(players: Players, steamid: u64, p: Player) -> bool {
    &&& (p.is_self == (players.user == Some(steamid)))
    &&& (p.steamid == steamid)
    &&& (p.game_info == if players.game_info@.contains_key(steamid) {
        Some(&players.game_info@[steamid])
    } else {
        None
    })
    &&& (if players.records.records@.contains_key(steamid) {
        let r = players.records.records@[steamid];
        &&& same_json(p.custom_data, r.custom_data)
        &&& p.local_verdict == r.verdict
        &&& strs_view(p.previous_names@) == strings_view(r.previous_names@)
    } else {
        &&& p.custom_data matches JsonValue::Object(fs) && fs@.len() == 0
        &&& p.local_verdict == Verdict::Player
        &&& p.previous_names@.len() == 0
    })
    &&& (!p.convicted)
    &&& (strs_view(p.tags@) == if players.tags@.contains_key(steamid) {
        strings_view(players.tags@[steamid]@)
    } else {
        Seq::empty()
    })
    &&& (if players.friend_info@.contains_key(steamid) {
        let fi = players.friend_info@[steamid];
        &&& p.friends@.len() == fi.friends@.len()
        &&& forall|i: int| 0 <= i < p.friends@.len() ==> *(#[trigger] p.friends@[i]) == fi.friends@[i]
        &&& p.friends_is_public == fi.public
    } else {
        p.friends@.len() == 0 && p.friends_is_public is None
    })
}

/// Slices of each string in `v`, in order.
fn str_slices<'a>(v: &'a Vec<String>) -> (r: Vec<&'a str>)
    ensures
        strs_view(r@) == strings_view(v@),
{
    let mut r: Vec<&'a str> = Vec::new();
    let mut i: usize = 0;
    while i < v.len()
        invariant
            i <= v@.len(),
            strs_view(r@) == strings_view(v@).take(i as int),
        decreases v.len() - i,
    {
        let t: &'a str = v[i].as_str();
        proof {
            assert(t@ == strings_view(v@)[i as int]);
            assert(strs_view(r@.push(t)) =~= strs_view(r@).push(t@));
            assert(strings_view(v@).take(i + 1) =~= strings_view(v@).take(i as int).push(t@));
        }
        r.push(t);
        i = i + 1;
    }
    proof {
        assert(strings_view(v@).take(v@.len() as int) =~= strings_view(v@));
    }
    r
}

impl Players {
    /// What the web interface shows of a player (see `shows_player`).
    pub fn get_serializable_player(&self, steamid: u64) -> (p: Player)
        ensures
            shows_player(*self, steamid, p),
    {
        let game_info = self.game_info.get(&steamid);
        let steam_info = self.steam_info.get(&steamid);
        let name: &str = match game_info {
            Some(gi) => gi.name.as_str(),
            None => match steam_info {
                Some(si) => si.account_name.as_str(),
                None => "",
            },
        };
        proof {
            reveal_strlit("");
        }
        let tags: Vec<&str> = match self.tags.get(&steamid) {
            Some(t) => str_slices(t),
            None => {
                let v: Vec<&str> = Vec::new();
                assert(strs_view(v@) =~= Seq::<Seq<char>>::empty());
                v
            },
        };
        let record = self.records.records.get(&steamid);
        let (custom_data, local_verdict, previous_names) = match record {
            Some(r) => (r.custom_data.deep_copy(), r.verdict, str_slices(&r.previous_names)),
            None => (default_custom_data(), Verdict::Player, Vec::new()),
        };
        let friend_info = self.friend_info.get(&steamid);
        let mut friends: Vec<&Friend> = Vec::new();
        let friends_is_public = match friend_info {
            Some(fi) => {
                let mut i: usize = 0;
                while i < fi.friends.len()
                    invariant
                        i <= fi.friends@.len(),
                        friends@.len() == i,
                        forall|j: int| 0 <= j < i ==> *(#[trigger] friends@[j]) == fi.friends@[j],
                    decreases fi.friends.len() - i,
                {
                    friends.push(&fi.friends[i]);
                    i = i + 1;
                }
                fi.public
            },
            None => None,
        };
        let is_self = match self.user {
            Some(u) => u == steamid,
            None => false,
        };
        let p = Player {
            is_self,
            name,
            steamid,
            steam_info,
            game_info,
            custom_data,
            local_verdict,
            convicted: false,
            tags,
            previous_names,
            friends,
            friends_is_public,
        };
        proof {
            let players = *self;
            assert(p.is_self == (players.user == Some(steamid)));
            assert(p.name@ == shown_name(players, steamid));
            assert(p.steam_info == if players.steam_info@.contains_key(steamid) {
                Some(&players.steam_info@[steamid])
            } else {
                None
            });
            assert(p.game_info == if players.game_info@.contains_key(steamid) {
                Some(&players.game_info@[steamid])
            } else {
                None
            });
            assert(if players.records.records@.contains_key(steamid) {
                let r = players.records.records@[steamid];
                &&& same_json(p.custom_data, r.custom_data)
                &&& p.local_verdict == r.verdict
                &&& strs_view(p.previous_names@) == strings_view(r.previous_names@)
            } else {
                &&& p.custom_data matches JsonValue::Object(fs) && fs@.len() == 0
                &&& p.local_verdict == Verdict::Player
                &&& p.previous_names@.len() == 0
            });
            assert(strs_view(p.tags@) == if players.tags@.contains_key(steamid) {
                strings_view(players.tags@[steamid]@)
            } else {
                Seq::empty()
            });
            assert(if players.friend_info@.contains_key(steamid) {
                let fi = players.friend_info@[steamid];
                &&& p.friends@.len() == fi.friends@.len()
                &&& forall|i: int| 0 <= i < p.friends@.len() ==> *(#[trigger] p.friends@[i]) == fi.friends@[i]
                &&& p.friends_is_public == fi.public
            } else {
                p.friends@.len() == 0 && p.friends_is_public is None
            });
        }
        p
    }
}

/// Whether the connected player `s` has left: the game has nothing on it,
/// or it went unseen for more than `CYCLE_LIMIT` cycles.
pub open spec fn gone(gi: Map<u64, GameInfo>, s: u64) -> bool {
    !gi.contains_key(s) || gi[s].last_seen > CYCLE_LIMIT
}

/// The name of a player: from the game, else from Steam, else the first
/// name the playerlist recorded.
pub open spec fn spec_name(p: Players, id: u64) -> Option<Seq<char>> {
    if p.game_info@.contains_key(id) {
        Some(p.game_info@[id].name@)
    } else if p.steam_info@.contains_key(id) {
        Some(p.steam_info@[id].account_name@)
    } else if p.records.records@.contains_key(id) && p.records.records@[id].previous_names@.len() > 0 {
        Some(p.records.records@[id].previous_names@[0]@)
    } else {
        None
    }
}

/// The first of `connected` that the game knows by the name `name`.
pub open spec fn first_named(connected: Seq<u64>, gi: Map<u64, GameInfo>, name: Seq<char>) -> Option<u64>
    decreases connected.len(),
{
    if connected.len() == 0 {
        None
    } else if named(gi, connected[0], name) {
        Some(connected[0])
    } else {
        first_named(connected.drop_first(), gi, name)
    }
}

/// Whether the game knows `id` by the name `name`.
pub open spec fn named(gi: Map<u64, GameInfo>, id: u64, name: Seq<char>) -> bool {
    gi.contains_key(id) && gi[id].name@ == name
}

/// The dumped slots as views.
pub open spec fn g15_views(ps: Seq<G15Player>) -> Seq<crate::io::g15::G15PlayerView> {
    ps.map_values(|p: G15Player| p@)
}

/// `connected` after the slots `ps`: each SteamID not yet there joins at
/// the back.
pub open spec fn connect_all(connected: Seq<u64>, ps: Seq<crate::io::g15::G15PlayerView>) -> Seq<u64>
    decreases ps.len(),
{
    if ps.len() == 0 {
        connected
    } else {
        let c = connect_all(connected, ps.drop_last());
        match ps.last().steamid {
            Some(id) => if c.contains(id) {
                c
            } else {
                c.push(id)
            },
            None => c,
        }
    }
}

/// The game information after the slots `ps`, in order: a known player is
/// updated from its slot, an unknown one is made from its slot where the
/// slot has a userid.
pub open spec fn g15_fold(gi: Map<u64, GameInfoView>, ps: Seq<crate::io::g15::G15PlayerView>) -> Map<u64, GameInfoView>
    decreases ps.len(),
{
    if ps.len() == 0 {
        gi
    } else {
        let m = g15_fold(gi, ps.drop_last());
        let g = ps.last();
        match g.steamid {
            Some(id) => if m.contains_key(id) {
                m.insert(id, g15_update(m[id], g))
            } else if g.userid is Some {
                m.insert(id, g15_update(new_game_info(), g))
            } else {
                m
            },
            None => m,
        }
    }
}

/// Whether a connected player has left (see `gone`).
pub open spec fn has_left(gi: Map<u64, GameInfo>) -> spec_fn(u64) -> bool {
    |s: u64| gone(gi, s)
}

/// Whether a connected player is still on the server (see `gone`).
pub open spec fn still_here(gi: Map<u64, GameInfo>) -> spec_fn(u64) -> bool {
    |s: u64| !gone(gi, s)
}

/// Whether a SteamID is not among `ids`.
pub open spec fn not_in(ids: Seq<u64>) -> spec_fn(u64) -> bool {
    |p: u64| !ids.contains(p)
}

/// Whether, once the list of `owner` turns private, what it says of `f` is
/// stale: `f` is the owner, or `f`'s own list is known and not public.
pub open spec fn is_stale(m: Map<u64, FriendInfo>, owner: u64, f: u64) -> bool {
    f == owner || (m.contains_key(f) && m[f].public != Some(true))
}

/// A copy of the friends list `v`.
fn copy_friends(v: &Vec<Friend>) -> (r: Vec<Friend>)
    ensures
        r@ == v@,
{
    let mut r: Vec<Friend> = Vec::new();
    let mut i: usize = 0;
    while i < v.len()
        invariant
            i <= v@.len(),
            r@ == v@.take(i as int),
        decreases v.len() - i,
    {
        r.push(v[i]);
        i = i + 1;
        assert(r@ =~= v@.take(i as int));
    }
    assert(v@.take(v@.len() as int) =~= v@);
    r
}

} // verus!

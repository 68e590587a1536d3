//! Looking players up with the Steam Web API: which profiles and friends
//! lists to ask for, and what the answers do to the player list. The
//! requests themselves are made by the application.
use std::collections::HashMap;
use vstd::prelude::*;
use vstd::string::StrSliceExecFns;

use crate::json::well_formed;
use crate::parties::{contains_id, lists};
use crate::player::{friend_ids, two_way, visibility_of, Friend, Players, ProfileVisibility, SteamInfo};
use crate::player_records::{strings_view, Verdict};
use crate::settings::FriendsAPIUsage;
use crate::text::{spec_decimal, u64_to_decimal};
use crate::time::{hours_passed, Timestamp};

verus! {

broadcast use vstd::std_specs::hash::group_hash_axioms;

/// How many profiles one request asks for at most.
pub const BATCH_SIZE: usize = 20;

/// Why a profile or friends list could not be had.
#[derive(Debug, Clone, PartialEq, Eq, Structural)]
pub enum SteamAPIError {
    /// The answer had no ban record for the player.
    MissingBans(u64),
    /// The answer had no summary for the player.
    MissingSummary(u64),
    /// The player does not own TF2.
    GameNotOwned,
    /// The request itself failed.
    RequestFailed,
}

/// The timer tick on which a batch of profiles is asked for.
#[derive(Debug, Clone, Copy)]
pub struct ProfileLookupBatchTick;

/// A request for the profiles of some players.
#[derive(Debug, Clone)]
pub enum ProfileLookupRequest {
    Single(u64),
    Multiple(Vec<u64>),
}

/// Whether a player's profile still needs fetching: it is not being fetched
/// already, and what is known of it is missing or stale at `now`.
pub open spec fn needs_lookup(
    in_progress: Seq<u64>,
    steam_info: Map<u64, SteamInfo>,
    now: Timestamp,
    s: u64,
) -> bool {
    !in_progress.contains(s) && !(steam_info.contains_key(s) && !hours_passed(
        steam_info[s].fetched,
        now,
        crate::player::STEAM_INFO_STALE_HOURS as int,
    ))
}

/// Whether a player's profile still needs fetching (see `needs_lookup`).
pub open spec fn needs_lookup_fn(in_progress: Seq<u64>, steam_info: Map<u64, SteamInfo>, now: Timestamp) -> spec_fn(u64) -> bool {
    |s: u64| needs_lookup(in_progress, steam_info, now, s)
}

/// The profiles waiting to be asked for, and those asked for.
pub struct LookupProfiles {
    pub batch_buffer: Vec<u64>,
    pub in_progress: Vec<u64>,
}

impl LookupProfiles {
    /// Nothing waiting.
    pub fn new() -> (l: LookupProfiles)
        ensures
            l.batch_buffer@.len() == 0,
            l.in_progress@.len() == 0,
    {
        LookupProfiles { batch_buffer: Vec::new(), in_progress: Vec::new() }
    }

    /// Queues players for lookup; without a Steam Web API key (`key`
    /// empty) nothing is queued.
    pub fn enqueue(&mut self, ids: &[u64], key: &str)
        ensures
            key@.len() == 0 ==> final(self).batch_buffer@ == old(self).batch_buffer@,
            key@.len() > 0 ==> final(self).batch_buffer@ == old(self).batch_buffer@ + ids@,
            final(self).in_progress@ == old(self).in_progress@,
    {
        if key.unicode_len() == 0 {
            return;
        }
        let mut i: usize = 0;
        let ghost start = self.batch_buffer@;
        while i < ids.len()
            invariant
                i <= ids@.len(),
                self.batch_buffer@ == start + ids@.take(i as int),
                self.in_progress@ == old(self).in_progress@,
            decreases ids.len() - i,
        {
            self.batch_buffer.push(ids[i]);
            i = i + 1;
            assert(self.batch_buffer@ =~= start + ids@.take(i as int));
        }
        assert(ids@.take(ids@.len() as int) =~= ids@);
    }

    /// The Steam API key was changed in the preferences: with no key, the
    /// queue is dropped; with a key, every connected player is queued again.
    pub fn on_api_key_change(&mut self, new_key: &str, connected: &[u64])
        ensures
            new_key@.len() == 0 ==> final(self).batch_buffer@.len() == 0,
            new_key@.len() > 0 ==> final(self).batch_buffer@ == old(self).batch_buffer@ + connected@,
            final(self).in_progress@ == old(self).in_progress@,
    {
        if new_key.unicode_len() == 0 {
            self.batch_buffer = Vec::new();
        } else {
            self.enqueue(connected, new_key);
        }
    }

    /// On a batch tick at the time `now`: drops from the queue the players
    /// being fetched and those whose profile is fresh, then takes the first
    /// `BATCH_SIZE` of the rest, marks them as being fetched and returns
    /// them. Without a Steam Web API key (`key` empty) nothing is taken and
    /// nothing changes.
    pub fn take_batch(&mut self, steam_info: &HashMap<u64, SteamInfo>, now: Timestamp, key: &str) -> (batch: Vec<u64>)
        ensures
            key@.len() == 0 ==> batch@.len() == 0 && final(self).batch_buffer@ == old(self).batch_buffer@
                && final(self).in_progress@ == old(self).in_progress@,
            key@.len() > 0 ==> ({
                let kept = old(self).batch_buffer@.filter(
                    needs_lookup_fn(old(self).in_progress@, steam_info@, now),
                );
                let n = if kept.len() < BATCH_SIZE { kept.len() } else { BATCH_SIZE as nat };
                &&& batch@ == kept.take(n as int)
                &&& final(self).batch_buffer@ == kept.skip(n as int)
                &&& final(self).in_progress@ == old(self).in_progress@ + batch@
            }),
    {
        if key.unicode_len() == 0 {
            return Vec::new();
        }
        let ghost pred = needs_lookup_fn(self.in_progress@, steam_info@, now);
        let ghost buf = self.batch_buffer@;
        let mut kept: Vec<u64> = Vec::new();
        let mut i: usize = 0;
        while i < self.batch_buffer.len()
            invariant
                i <= buf.len(),
                self.batch_buffer@ == buf,
                self.in_progress@ == old(self).in_progress@,
                pred == needs_lookup_fn(self.in_progress@, steam_info@, now),
                kept@ == buf.take(i as int).filter(pred),
            decreases buf.len() - i,
        {
            let s = self.batch_buffer[i];
            proof {
                reveal(Seq::filter);
                assert(buf.take(i + 1).drop_last() =~= buf.take(i as int));
            }
            let busy = contains_id(self.in_progress.as_slice(), s);
            let fresh = match steam_info.get(&s) {
                Some(si) => !si.expired_at(now),
                None => false,
            };
            if !busy && !fresh {
                kept.push(s);
            }
            i = i + 1;
        }
        proof {
            assert(buf.take(buf.len() as int) =~= buf);
        }
        let n = if kept.len() < BATCH_SIZE { kept.len() } else { BATCH_SIZE };
        let mut batch: Vec<u64> = Vec::new();
        let mut rest: Vec<u64> = Vec::new();
        let mut j: usize = 0;
        while j < kept.len()
            invariant
                j <= kept@.len(),
                n <= kept@.len(),
                batch@ == kept@.take(if j < n { j as int } else { n as int }),
                rest@ == if j < n { Seq::<u64>::empty() } else { kept@.subrange(n as int, j as int) },
            decreases kept.len() - j,
        {
            if j < n {
                batch.push(kept[j]);
            } else {
                rest.push(kept[j]);
            }
            j = j + 1;
            proof {
                assert(batch@ =~= kept@.take(if j < n { j as int } else { n as int }));
                assert(rest@ =~= if j < n { Seq::<u64>::empty() } else { kept@.subrange(n as int, j as int) });
            }
        }
        proof {
            assert(rest@ =~= kept@.skip(n as int));
        }
        self.batch_buffer = rest;
        let ghost rest_view = self.batch_buffer@;
        let mut k: usize = 0;
        let ghost prog = self.in_progress@;
        while k < batch.len()
            invariant
                self.batch_buffer@ == rest_view,
                k <= batch@.len(),
                self.in_progress@ == prog + batch@.take(k as int),
            decreases batch.len() - k,
        {
            self.in_progress.push(batch[k]);
            k = k + 1;
            assert(self.in_progress@ =~= prog + batch@.take(k as int));
        }
        assert(batch@.take(batch@.len() as int) =~= batch@);
        proof {
            assert(kept@ == buf.filter(pred));
            assert(batch@ == kept@.take(n as int));
            assert(self.batch_buffer@ == kept@.skip(n as int));
        }
        batch
    }
}

/// A profile summary from the Steam Web API, as the library holds it.
#[derive(Debug, Clone)]
pub struct PlayerSummary {
    pub steam_id: u64,
    pub persona_name: String,
    pub profile_url: String,
    pub avatar_full: String,
    pub avatar_hash: String,
    pub community_visibility_state: i32,
    pub time_created: Option<i64>,
    pub loc_country_code: Option<String>,
}

/// A ban record from the Steam Web API, as the library holds it.
#[derive(Debug, Clone)]
pub struct PlayerBans {
    /// The SteamID64 as decimal text, as the API gives it.
    pub steam_id: String,
    pub number_of_vac_bans: i64,
    pub number_of_game_bans: i64,
    pub days_since_last_ban: i64,
}

/// The position of the last summary for `id`, if any.
pub open spec fn last_summary(summaries: Seq<PlayerSummary>, id: u64) -> Option<int>
    decreases summaries.len(),
{
    if summaries.len() == 0 {
        None
    } else if summaries.last().steam_id == id {
        Some(summaries.len() - 1)
    } else {
        last_summary(summaries.drop_last(), id)
    }
}

/// The position of the last ban record whose id text is `id`, if any.
pub open spec fn last_bans(bans: Seq<PlayerBans>, id: Seq<char>) -> Option<int>
    decreases bans.len(),
{
    if bans.len() == 0 {
        None
    } else if bans.last().steam_id@ == id {
        Some(bans.len() - 1)
    } else {
        last_bans(bans.drop_last(), id)
    }
}

/// The last playtime known for `id`, if any.
pub open spec fn last_playtime(playtimes: Seq<(u64, Result<u64, SteamAPIError>)>, id: u64) -> Option<u64>
    decreases playtimes.len(),
{
    if playtimes.len() == 0 {
        None
    } else if playtimes.last().0 == id && playtimes.last().1 is Ok {
        Some(playtimes.last().1->Ok_0)
    } else {
        last_playtime(playtimes.drop_last(), id)
    }
}

/// Whether `r` is what the answers say of `id`: the last summary and last
/// ban record for it make its information, fetched at `fetched`; without a
/// summary, or else without a ban record, it is missing.
pub open spec fn steam_info_built(
    summaries: Seq<PlayerSummary>,
    bans: Seq<PlayerBans>,
    playtimes: Seq<(u64, Result<u64, SteamAPIError>)>,
    fetched: Timestamp,
    id: u64,
    r: Result<SteamInfo, SteamAPIError>,
) -> bool {
    match last_summary(summaries, id) {
        None => r == Err::<SteamInfo, SteamAPIError>(SteamAPIError::MissingSummary(id)),
        Some(si) => match last_bans(bans, spec_decimal(id as nat)) {
            None => r == Err::<SteamInfo, SteamAPIError>(SteamAPIError::MissingBans(id)),
            Some(bi) => r matches Ok(info) && {
                let s = summaries[si];
                let b = bans[bi];
                &&& info.account_name@ == s.persona_name@
                &&& info.pfp_url@ == s.avatar_full@
                &&& info.profile_url@ == s.profile_url@
                &&& info.pfp_hash@ == s.avatar_hash@
                &&& info.profile_visibility == visibility_of(s.community_visibility_state)
                &&& info.time_created == s.time_created
                &&& crate::settings::opt_text(info.country_code) == crate::settings::opt_text(s.loc_country_code)
                &&& info.vac_bans == b.number_of_vac_bans
                &&& info.game_bans == b.number_of_game_bans
                &&& info.days_since_last_ban == if b.number_of_vac_bans > 0 || b.number_of_game_bans > 0 {
                    Some(b.days_since_last_ban)
                } else {
                    None
                }
                &&& info.playtime == last_playtime(playtimes, id)
                &&& info.fetched == fetched
            },
        },
    }
}

/// The ban counts of a player's information are those of its last ban
/// record, and the days since its last ban are known exactly when it has
/// any ban, VAC or game: a player with game bans alone has them, one with
/// no ban of either kind has none.
pub proof fn lemma_ban_days(
    summaries: Seq<PlayerSummary>,
    bans: Seq<PlayerBans>,
    playtimes: Seq<(u64, Result<u64, SteamAPIError>)>,
    fetched: Timestamp,
    id: u64,
    info: SteamInfo,
)
    requires
        steam_info_built(summaries, bans, playtimes, fetched, id, Ok(info)),
    ensures
        last_bans(bans, spec_decimal(id as nat)) matches Some(bi) && {
            let b = bans[bi];
            &&& info.vac_bans == b.number_of_vac_bans
            &&& info.game_bans == b.number_of_game_bans
            &&& (b.number_of_vac_bans > 0 || b.number_of_game_bans > 0) ==> info.days_since_last_ban == Some(
                b.days_since_last_ban,
            )
        },
        info.game_bans > 0 ==> info.days_since_last_ban is Some,
        info.vac_bans > 0 ==> info.days_since_last_ban is Some,
        info.vac_bans <= 0 && info.game_bans <= 0 ==> info.days_since_last_ban is None,
{
}

/// The TF2 playtime among a player's owned games, each given as its app id
/// and minutes played: that of the first TF2 entry.
pub open spec fn spec_playtime(games: Seq<(u32, u64)>) -> Result<u64, SteamAPIError>
    decreases games.len(),
{
    if games.len() == 0 {
        Err(SteamAPIError::GameNotOwned)
    } else if games[0].0 == crate::launchoptions::TF2_GAME_ID {
        Ok(games[0].1)
    } else {
        spec_playtime(games.drop_first())
    }
}

/// The TF2 playtime among a player's owned games (see `spec_playtime`);
/// `GameNotOwned` where TF2 is not among them.
pub fn playtime_from_games(games: &[(u32, u64)]) -> (r: Result<u64, SteamAPIError>)
    ensures
        r == spec_playtime(games@),
{
    let mut i: usize = 0;
    assert(games@.subrange(0, games@.len() as int) =~= games@);
    while i < games.len()
        invariant
            i <= games@.len(),
            spec_playtime(games@) == spec_playtime(games@.subrange(i as int, games@.len() as int)),
        decreases games.len() - i,
    {
        proof {
            assert(games@.subrange(i as int, games@.len() as int).drop_first() =~= games@.subrange(
                i + 1,
                games@.len() as int,
            ));
        }
        if games[i].0 == crate::launchoptions::TF2_GAME_ID {
            return Ok(games[i].1);
        }
        i = i + 1;
    }
    Err(SteamAPIError::GameNotOwned)
}

/// Builds each player's Steam information from the answers of one batch
/// (see `steam_info_built`), in the order of `playerids`.
pub fn build_steam_infos(
    playerids: &[u64],
    summaries: &Vec<PlayerSummary>,
    bans: &Vec<PlayerBans>,
    playtimes: &Vec<(u64, Result<u64, SteamAPIError>)>,
    fetched: Timestamp,
) -> (r: Vec<(u64, Result<SteamInfo, SteamAPIError>)>)
    ensures
        r@.len() == playerids@.len(),
        forall|i: int|
            0 <= i < r@.len() ==> (#[trigger] r@[i]).0 == playerids@[i] && steam_info_built(
                summaries@,
                bans@,
                playtimes@,
                fetched,
                playerids@[i],
                r@[i].1,
            ),
{
    let mut out: Vec<(u64, Result<SteamInfo, SteamAPIError>)> = Vec::new();
    let mut i: usize = 0;
    while i < playerids.len()
        invariant
            i <= playerids@.len(),
            out@.len() == i,
            forall|k: int|
                0 <= k < i ==> (#[trigger] out@[k]).0 == playerids@[k] && steam_info_built(
                    summaries@,
                    bans@,
                    playtimes@,
                    fetched,
                    playerids@[k],
                    out@[k].1,
                ),
        decreases playerids.len() - i,
    {
        let player = playerids[i];
        let r = build_one(player, summaries, bans, playtimes, fetched);
        out.push((player, r));
        i = i + 1;
    }
    out
}

/// The information of one player (see `steam_info_built`).
fn build_one(
    player: u64,
    summaries: &Vec<PlayerSummary>,
    bans: &Vec<PlayerBans>,
    playtimes: &Vec<(u64, Result<u64, SteamAPIError>)>,
    fetched: Timestamp,
) -> (r: Result<SteamInfo, SteamAPIError>)
    ensures
        steam_info_built(summaries@, bans@, playtimes@, fetched, player, r),
{
    let si = match find_last_summary(summaries, player) {
        Some(k) => k,
        None => {
            return Err(SteamAPIError::MissingSummary(player));
        },
    };
    let id = u64_to_decimal(player);
    let bi = match find_last_bans(bans, &id) {
        Some(k) => k,
        None => {
            return Err(SteamAPIError::MissingBans(player));
        },
    };
    let s = &summaries[si];
    let b = &bans[bi];
    let banned = b.number_of_vac_bans > 0 || b.number_of_game_bans > 0;
    Ok(SteamInfo {
        account_name: s.persona_name.clone(),
        profile_url: s.profile_url.clone(),
        pfp_url: s.avatar_full.clone(),
        pfp_hash: s.avatar_hash.clone(),
        profile_visibility: ProfileVisibility::from(s.community_visibility_state),
        time_created: s.time_created,
        country_code: match &s.loc_country_code {
            Some(c) => Some(c.clone()),
            None => None,
        },
        vac_bans: b.number_of_vac_bans,
        game_bans: b.number_of_game_bans,
        days_since_last_ban: if banned { Some(b.days_since_last_ban) } else { None },
        playtime: find_last_playtime(playtimes, player),
        fetched,
    })
}

/// The position of the last summary for `id`.
fn find_last_summary(summaries: &Vec<PlayerSummary>, id: u64) -> (r: Option<usize>)
    ensures
        match r {
            Some(k) => last_summary(summaries@, id) == Some(k as int) && k < summaries@.len(),
            None => last_summary(summaries@, id) is None,
        },
{
    let mut k: usize = summaries.len();
    assert(summaries@.take(k as int) =~= summaries@);
    while k > 0
        invariant
            k <= summaries@.len(),
            last_summary(summaries@, id) == last_summary(summaries@.take(k as int), id),
        decreases k,
    {
        proof {
            assert(summaries@.take(k as int).drop_last() =~= summaries@.take(k - 1));
        }
        if summaries[k - 1].steam_id == id {
            return Some(k - 1);
        }
        k = k - 1;
    }
    None
}

/// The position of the last ban record whose id text is `id`.
fn find_last_bans(bans: &Vec<PlayerBans>, id: &String) -> (r: Option<usize>)
    ensures
        match r {
            Some(k) => last_bans(bans@, id@) == Some(k as int) && k < bans@.len(),
            None => last_bans(bans@, id@) is None,
        },
{
    let mut k: usize = bans.len();
    assert(bans@.take(k as int) =~= bans@);
    while k > 0
        invariant
            k <= bans@.len(),
            last_bans(bans@, id@) == last_bans(bans@.take(k as int), id@),
        decreases k,
    {
        proof {
            assert(bans@.take(k as int).drop_last() =~= bans@.take(k - 1));
        }
        if bans[k - 1].steam_id == *id {
            return Some(k - 1);
        }
        k = k - 1;
    }
    None
}

/// The last playtime known for `id`.
fn find_last_playtime(playtimes: &Vec<(u64, Result<u64, SteamAPIError>)>, id: u64) -> (r: Option<u64>)
    ensures
        r == last_playtime(playtimes@, id),
{
    let mut k: usize = playtimes.len();
    assert(playtimes@.take(k as int) =~= playtimes@);
    while k > 0
        invariant
            k <= playtimes@.len(),
            last_playtime(playtimes@, id) == last_playtime(playtimes@.take(k as int), id),
        decreases k,
    {
        proof {
            assert(playtimes@.take(k as int).drop_last() =~= playtimes@.take(k - 1));
        }
        if playtimes[k - 1].0 == id {
            match &playtimes[k - 1].1 {
                Ok(t) => {
                    return Some(*t);
                },
                Err(_) => {},
            }
        }
        k = k - 1;
    }
    None
}

/// Whether a lookup result is a success.
pub open spec fn ok_result() -> spec_fn((u64, Result<SteamInfo, SteamAPIError>)) -> bool {
    |r: (u64, Result<SteamInfo, SteamAPIError>)| r.1 is Ok
}

/// The player a lookup result is about.
pub open spec fn result_id() -> spec_fn((u64, Result<SteamInfo, SteamAPIError>)) -> u64 {
    |r: (u64, Result<SteamInfo, SteamAPIError>)| r.0
}

/// Whether a player's friends are wanted (see `wanted`).
pub open spec fn wanted_fn(user: Option<u64>, players: Players, policy: FriendsAPIUsage, need_all: bool) -> spec_fn(u64) -> bool {
    |p: u64| wanted(user, players, policy, need_all, p)
}

/// Whether a player's friends list is to ask for (see `to_ask`).
pub open spec fn to_ask_fn(players: Players, in_progress: Seq<u64>) -> spec_fn(u64) -> bool {
    |p: u64| to_ask(players, in_progress, p)
}

/// Takes in the answers of a profile lookup: each player's information is
/// stored (its record, where there is one, keeps the Steam name among the
/// previous names); failures are left out.
pub fn apply_profile_results(players: &mut Players, results: Vec<(u64, Result<SteamInfo, SteamAPIError>)>)
    ensures
        final(players).steam_info@.dom() == old(players).steam_info@.dom().union(
            results@.filter(ok_result()).map_values(result_id()).to_set(),
        ),
        final(players).records.records@.dom() == old(players).records.records@.dom(),
        final(players).friend_info@ == old(players).friend_info@,
        final(players).connected@ == old(players).connected@,
{
    let ghost all = results@;
    let ghost d0 = players.steam_info@.dom();
    for r in it: results
        invariant
            it.seq() == all,
            players.steam_info@.dom() == d0.union(all.take(it.index()).filter(ok_result()).map_values(result_id()).to_set()),
            players.records.records@.dom() == old(players).records.records@.dom(),
            players.friend_info@ == old(players).friend_info@,
            players.connected@ == old(players).connected@,
    {
        let ghost idx = it.index();
        proof {
            reveal(Seq::filter);
            assert(all.take(idx + 1).drop_last() =~= all.take(idx));
            assert(all.take(idx + 1).last() == all[idx]);
            assert(all[idx] == r);
        }
        let (steamid, result) = r;
        match result {
            Ok(info) => {
                match players.records.records.remove(&steamid) {
                    Some(mut rec) => {
                        rec.add_previous_name(info.account_name.as_str());
                        players.records.records.insert(steamid, rec);
                    },
                    None => {},
                }
                players.steam_info.insert(steamid, info);
                proof {
                    reveal(Seq::filter);
                    assert(all[idx].1 is Ok);
                    assert(ok_result()(all[idx]));
                    assert(ok_result()(all.take(idx + 1).last()));
                    assert(all.take(idx + 1).filter(ok_result()) == all.take(idx).filter(ok_result()).push(all[idx]));
                    assert(all.take(idx + 1).filter(ok_result()).map_values(result_id()) =~= all.take(idx).filter(ok_result()).map_values(result_id()).push(steamid));
                    all.take(idx).filter(ok_result()).map_values(result_id()).lemma_push_to_set_commute(steamid);
                    assert(players.steam_info@.dom() =~= d0.union(all.take(idx + 1).filter(ok_result()).map_values(result_id()).to_set()));
                }
            },
            Err(_) => {
                proof {
                    reveal(Seq::filter);
                    assert(all.take(idx + 1).filter(ok_result()) == all.take(idx).filter(ok_result()));
                }
            },
        }
    }
    proof {
        assert(all.take(all.len() as int) =~= all);
    }
}

/// Takes in the answer of a friends list lookup: a list read marks the
/// friendships both ways (see `Players::update_friends_list`); a failure
/// means the list is private (see `Players::mark_friends_list_private`).
pub fn apply_friend_result(players: &mut Players, steamid: u64, result: Result<Vec<Friend>, SteamAPIError>)
    ensures
        final(players).friend_info@.contains_key(steamid),
        final(players).friend_info@[steamid].public == if result is Ok { Some(true) } else { Some(false) },
        result matches Ok(fs) ==> {
            &&& forall|x: u64| #[trigger] lists(final(players).friend_info@, steamid, x) <==> friend_ids(fs@).contains(x)
            &&& forall|f: u64| #[trigger] friend_ids(fs@).contains(f) ==> lists(final(players).friend_info@, f, steamid)
            &&& two_way(old(players).friend_info@) ==> two_way(final(players).friend_info@)
        },
        final(players).game_info@ == old(players).game_info@,
        final(players).connected@ == old(players).connected@,
        final(players).user == old(players).user,
{
    match result {
        Ok(friends) => players.update_friends_list(steamid, friends),
        Err(_) => players.mark_friends_list_private(steamid),
    }
}

/// Whether a policy looks up the friends of a player with this verdict.
pub open spec fn policy_looks_up(policy: FriendsAPIUsage, v: Verdict) -> bool {
    match policy {
        FriendsAPIUsage::All => true,
        FriendsAPIUsage::CheatersOnly => v == Verdict::Cheater || v == Verdict::Bot,
        FriendsAPIUsage::Disabled => false,
    }
}

impl FriendsAPIUsage {
    /// Whether this policy looks up the friends of a player with verdict
    /// `v`.
    pub fn lookup(&self, v: Verdict) -> (b: bool)
        ensures
            b == policy_looks_up(*self, v),
    {
        match self {
            FriendsAPIUsage::All => true,
            FriendsAPIUsage::CheatersOnly => v == Verdict::Cheater || v == Verdict::Bot,
            FriendsAPIUsage::Disabled => false,
        }
    }
}

/// The verdict of a player: the recorded one, else `Player`.
pub open spec fn verdict_of(players: Players, s: u64) -> Verdict {
    if players.records.records@.contains_key(s) {
        players.records.records@[s].verdict
    } else {
        Verdict::Player
    }
}

/// Whether a connected cheater or bot keeps its friends list private, so
/// that everyone's friends are needed to find its friends.
pub open spec fn private_cheater_present(players: Players) -> bool {
    exists|i: int|
        0 <= i < players.connected@.len() && {
            let p = #[trigger] players.connected@[i];
            (verdict_of(players, p) == Verdict::Cheater || verdict_of(players, p) == Verdict::Bot)
                && players.friend_info@.contains_key(p) && players.friend_info@[p].public == Some(false)
        }
}

/// Whether the friends of `p` are wanted under the policy: always for the
/// user; under `CheatersOnly` for cheaters and bots, or for everyone where
/// `need_all` holds; under `All` for everyone.
pub open spec fn wanted(user: Option<u64>, players: Players, policy: FriendsAPIUsage, need_all: bool, p: u64) -> bool {
    if user == Some(p) {
        true
    } else {
        match policy {
            FriendsAPIUsage::CheatersOnly => need_all || verdict_of(players, p) == Verdict::Cheater
                || verdict_of(players, p) == Verdict::Bot,
            FriendsAPIUsage::All => true,
            FriendsAPIUsage::Disabled => false,
        }
    }
}

/// Under `CheatersOnly`, the friends of every candidate recorded as a
/// cheater or a bot are asked for, where its list is still to ask (its
/// visibility not known, not being fetched); and, unless everyone's friends
/// are needed, those of no other candidate but the user.
pub proof fn lemma_cheaters_only_asks(
    players: Players,
    user: Option<u64>,
    candidates: Seq<u64>,
    in_progress: Seq<u64>,
    need_all: bool,
    p: u64,
)
    ensures
        ({
            let asked = candidates.filter(wanted_fn(user, players, FriendsAPIUsage::CheatersOnly, need_all)).filter(
                to_ask_fn(players, in_progress),
            );
            &&& candidates.contains(p) && (verdict_of(players, p) == Verdict::Cheater || verdict_of(players, p)
                == Verdict::Bot) && !(players.friend_info@.contains_key(p) && players.friend_info@[p].public is Some)
                && !in_progress.contains(p) ==> asked.contains(p)
            &&& !need_all && user != Some(p) && verdict_of(players, p) != Verdict::Cheater && verdict_of(players, p)
                != Verdict::Bot ==> !asked.contains(p)
        }),
{
    broadcast use vstd::seq_lib::group_filter_ensures;

    let want = wanted_fn(user, players, FriendsAPIUsage::CheatersOnly, need_all);
    let ask = to_ask_fn(players, in_progress);
    let wanted_ones = candidates.filter(want);
    let asked = wanted_ones.filter(ask);
    if candidates.contains(p) && (verdict_of(players, p) == Verdict::Cheater || verdict_of(players, p) == Verdict::Bot)
        && !(players.friend_info@.contains_key(p) && players.friend_info@[p].public is Some) && !in_progress.contains(p) {
        let i = choose|i: int| 0 <= i < candidates.len() && candidates[i] == p;
        assert(want(candidates[i]));
        assert(wanted_ones.contains(p));
        let j = choose|j: int| 0 <= j < wanted_ones.len() && wanted_ones[j] == p;
        assert(ask(wanted_ones[j]));
        assert(asked.contains(p));
    }
    if !need_all && user != Some(p) && verdict_of(players, p) != Verdict::Cheater && verdict_of(players, p) != Verdict::Bot {
        if asked.contains(p) {
            wanted_ones.lemma_filter_contains_rev(ask, p);
            let k = choose|k: int| 0 <= k < wanted_ones.len() && wanted_ones[k] == p;
            assert(want(wanted_ones[k]));
            assert(false);
        }
    }
}

/// Whether a wanted friends list is asked for: its visibility is not known
/// yet and it is not being fetched.
pub open spec fn to_ask(players: Players, in_progress: Seq<u64>, p: u64) -> bool {
    !(players.friend_info@.contains_key(p) && players.friend_info@[p].public is Some) && !in_progress.contains(p)
}

/// The friends lists being fetched.
pub struct LookupFriends {
    pub in_progress: Vec<u64>,
}

impl LookupFriends {
    /// Nothing being fetched.
    pub fn new() -> (l: LookupFriends)
        ensures
            l.in_progress@.len() == 0,
    {
        LookupFriends { in_progress: Vec::new() }
    }

    /// Whether a connected cheater or bot keeps its friends list private.
    fn cheater_with_private_list(players: &Players) -> (b: bool)
        ensures
            b == private_cheater_present(*players),
    {
        let mut i: usize = 0;
        while i < players.connected.len()
            invariant
                i <= players.connected@.len(),
                forall|j: int|
                    0 <= j < i ==> !({
                        let p = #[trigger] players.connected@[j];
                        (verdict_of(*players, p) == Verdict::Cheater || verdict_of(*players, p) == Verdict::Bot)
                            && players.friend_info@.contains_key(p) && players.friend_info@[p].public == Some(false)
                    }),
            decreases players.connected.len() - i,
        {
            let p = players.connected[i];
            let v = players.verdict(p);
            let private = match players.friend_info.get(&p) {
                Some(f) => f.public == Some(false),
                None => false,
            };
            if (v == Verdict::Cheater || v == Verdict::Bot) && private {
                return true;
            }
            i = i + 1;
        }
        false
    }

    /// The players among `candidates` whose friends lists to ask for now:
    /// those wanted under the policy (see `wanted`; with `force`, or where a
    /// connected cheater keeps its list private, everyone's friends are
    /// wanted) that are still to ask (see `to_ask`), in order. They are
    /// marked as being fetched. Without a Steam Web API key (`key` empty)
    /// nothing is asked for.
    pub fn handle_players(
        &mut self,
        players: &Players,
        user: Option<u64>,
        candidates: &[u64],
        policy: FriendsAPIUsage,
        key: &str,
        force: bool,
    ) -> (asked: Vec<u64>)
        ensures
            key@.len() == 0 ==> asked@.len() == 0,
            key@.len() > 0 ==> ({
                let need_all = force || private_cheater_present(*players);
                asked@ == candidates@.filter(wanted_fn(user, *players, policy, need_all)).filter(
                    to_ask_fn(*players, old(self).in_progress@),
                )
            }),
            final(self).in_progress@ == old(self).in_progress@ + asked@,
    {
        if key.unicode_len() == 0 {
            return Vec::new();
        }
        let need_all = force || LookupFriends::cheater_with_private_list(players);
        let ghost want = wanted_fn(user, *players, policy, need_all);
        let ghost ask = to_ask_fn(*players, self.in_progress@);
        let mut queued: Vec<u64> = Vec::new();
        let mut i: usize = 0;
        while i < candidates.len()
            invariant
                i <= candidates@.len(),
                want == wanted_fn(user, *players, policy, need_all),
                queued@ == candidates@.take(i as int).filter(want),
            decreases candidates.len() - i,
        {
            let p = candidates[i];
            proof {
                reveal(Seq::filter);
                assert(candidates@.take(i + 1).drop_last() =~= candidates@.take(i as int));
            }
            let is_user = match user {
                Some(u) => u == p,
                None => false,
            };
            let w = if is_user {
                true
            } else {
                match policy {
                    FriendsAPIUsage::CheatersOnly => {
                        let v = players.verdict(p);
                        need_all || v == Verdict::Cheater || v == Verdict::Bot
                    },
                    FriendsAPIUsage::All => true,
                    FriendsAPIUsage::Disabled => false,
                }
            };
            if w {
                queued.push(p);
            }
            i = i + 1;
        }
        proof {
            assert(candidates@.take(candidates@.len() as int) =~= candidates@);
        }
        let mut asked: Vec<u64> = Vec::new();
        let mut j: usize = 0;
        while j < queued.len()
            invariant
                j <= queued@.len(),
                self.in_progress@ == old(self).in_progress@,
                ask == to_ask_fn(*players, old(self).in_progress@),
                asked@ == queued@.take(j as int).filter(ask),
            decreases queued.len() - j,
        {
            let p = queued[j];
            proof {
                reveal(Seq::filter);
                assert(queued@.take(j + 1).drop_last() =~= queued@.take(j as int));
            }
            let known = match players.friend_info.get(&p) {
                Some(f) => f.public.is_some(),
                None => false,
            };
            if !known && !contains_id(self.in_progress.as_slice(), p) {
                asked.push(p);
            }
            j = j + 1;
        }
        proof {
            assert(queued@.take(queued@.len() as int) =~= queued@);
        }
        let ghost prog = self.in_progress@;
        let mut k: usize = 0;
        while k < asked.len()
            invariant
                k <= asked@.len(),
                self.in_progress@ == prog + asked@.take(k as int),
            decreases asked.len() - k,
        {
            self.in_progress.push(asked[k]);
            k = k + 1;
            assert(self.in_progress@ =~= prog + asked@.take(k as int));
        }
        assert(asked@.take(asked@.len() as int) =~= asked@);
        asked
    }

    /// The user changed the verdict on `steamid` to `new_verdict`. Where the
    /// policy looks up players with that verdict, their friends list is
    /// asked for (see `handle_players`, forced); where the policy is
    /// `CheatersOnly` and that list is known to be private, every connected
    /// player's list is asked for instead. Without a Steam Web API key
    /// (`key` empty) nothing is asked for.
    pub fn on_user_update(
        &mut self,
        players: &Players,
        user: Option<u64>,
        policy: FriendsAPIUsage,
        key: &str,
        steamid: u64,
        new_verdict: Option<Verdict>,
    ) -> (asked: Vec<u64>)
        ensures
            key@.len() == 0 ==> asked@.len() == 0 && final(self).in_progress@ == old(self).in_progress@,
            key@.len() > 0 ==> match new_verdict {
                Some(v) if policy_looks_up(policy, v) => {
                    let all = policy == FriendsAPIUsage::CheatersOnly && players.friend_info@.contains_key(steamid)
                        && players.friend_info@[steamid].public == Some(false);
                    let candidates = if all {
                        players.connected@
                    } else {
                        seq![steamid]
                    };
                    &&& asked@ == candidates.filter(wanted_fn(user, *players, policy, true)).filter(
                        to_ask_fn(*players, old(self).in_progress@),
                    )
                    &&& final(self).in_progress@ == old(self).in_progress@ + asked@
                },
                _ => asked@.len() == 0 && final(self).in_progress@ == old(self).in_progress@,
            },
    {
        if key.unicode_len() == 0 {
            return Vec::new();
        }
        let v = match new_verdict {
            Some(v) => v,
            None => {
                return Vec::new();
            },
        };
        if !policy.lookup(v) {
            return Vec::new();
        }
        let all = policy == FriendsAPIUsage::CheatersOnly && match players.friend_info.get(&steamid) {
            Some(fi) => fi.public == Some(false),
            None => false,
        };
        if all {
            self.handle_players(players, user, players.connected.as_slice(), policy, key, true)
        } else {
            let one: Vec<u64> = vec![steamid];
            proof {
                assert(one@ =~= seq![steamid]);
            }
            self.handle_players(players, user, one.as_slice(), policy, key, true)
        }
    }

    /// A friends list lookup finished: it is no longer being fetched. Where
    /// it failed for a cheater or bot, everyone connected is looked up (see
    /// `handle_players` with `force`); otherwise nothing is. The lookups in
    /// progress are then the earlier ones and the new ones, without
    /// `steamid`. Without a Steam Web API key (`key` empty) nothing changes.
    pub fn on_result(
        &mut self,
        players: &Players,
        user: Option<u64>,
        policy: FriendsAPIUsage,
        key: &str,
        steamid: u64,
        failed: bool,
    ) -> (asked: Vec<u64>)
        ensures
            key@.len() == 0 ==> asked@.len() == 0 && final(self).in_progress@ == old(self).in_progress@,
            key@.len() > 0 ==> ({
                let v = verdict_of(*players, steamid);
                if (v == Verdict::Bot || v == Verdict::Cheater) && failed {
                    asked@ == players.connected@.filter(wanted_fn(user, *players, policy, true)).filter(
                        to_ask_fn(*players, old(self).in_progress@),
                    )
                } else {
                    asked@.len() == 0
                }
            }),
            key@.len() > 0 ==> final(self).in_progress@ == (old(self).in_progress@ + asked@).filter(
                not_this(steamid),
            ),
    {
        if key.unicode_len() == 0 {
            return Vec::new();
        }
        let v = players.verdict(steamid);
        let asked = if (v == Verdict::Bot || v == Verdict::Cheater) && failed {
            self.handle_players(players, user, players.connected.as_slice(), policy, key, true)
        } else {
            Vec::new()
        };
        let ghost all = self.in_progress@;
        let mut kept: Vec<u64> = Vec::new();
        let mut i: usize = 0;
        while i < self.in_progress.len()
            invariant
                i <= all.len(),
                self.in_progress@ == all,
                kept@ == all.take(i as int).filter(not_this(steamid)),
            decreases self.in_progress.len() - i,
        {
            proof {
                reveal(Seq::filter);
                assert(all.take(i + 1).drop_last() =~= all.take(i as int));
            }
            if self.in_progress[i] != steamid {
                kept.push(self.in_progress[i]);
            }
            i = i + 1;
        }
        proof {
            assert(all.take(all.len() as int) =~= all);
        }
        self.in_progress = kept;
        asked
    }
}

/// Every id but `id`.
pub open spec fn not_this(id: u64) -> spec_fn(u64) -> bool {
    |x: u64| x != id
}

} // verus!

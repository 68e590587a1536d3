//! Requests to the steamhistory.net API for the SourceBans of players, and
//! the shape of its answers. The requests are sent by the application.
use crate::text::{push_str, spec_decimal, u64_to_decimal};
use std::collections::HashMap;
use vstd::prelude::*;

verus! {

/// Where the SourceBans of players are asked for.
pub const STEAM_HISTORY_SOURCEBANS: &'static str = "https://steamhistory.net/api/sourcebans";

/// A request for the SourceBans of some players.
pub struct SteamHistoryRequest {
    /// The SteamHistory API key.
    pub key: String,
    /// The SteamIDs to look up, in decimal, separated by commas.
    pub steamids: String,
    /// 1: the answer is keyed by SteamID.
    pub shouldkey: usize,
}

/// The decimal SteamIDs of `ids`, separated by commas.
pub open spec fn joined_ids(ids: Seq<u64>) -> Seq<char>
    decreases ids.len(),
{
    if ids.len() == 0 {
        Seq::empty()
    } else if ids.len() == 1 {
        spec_decimal(ids[0] as nat)
    } else {
        joined_ids(ids.drop_last()) + ","@ + spec_decimal(ids.last() as nat)
    }
}

impl SteamHistoryRequest {
    /// A request for the SourceBans of `steam_ids`, answered keyed by
    /// SteamID.
    pub fn new_from_steamids(api_key: String, steam_ids: &[u64]) -> (r: SteamHistoryRequest)
        ensures
            r.key == api_key,
            r.steamids@ == joined_ids(steam_ids@),
            r.shouldkey == 1,
    {
        let mut joined = String::new();
        let mut i: usize = 0;
        while i < steam_ids.len()
            invariant
                i <= steam_ids@.len(),
                joined@ == joined_ids(steam_ids@.take(i as int)),
            decreases steam_ids.len() - i,
        {
            proof {
                assert(steam_ids@.take(i + 1).drop_last() =~= steam_ids@.take(i as int));
            }
            if i > 0 {
                push_str(&mut joined, ",");
            }
            let id = u64_to_decimal(steam_ids[i]);
            push_str(&mut joined, id.as_str());
            proof {
                if i == 0 {
                    assert(joined@ =~= spec_decimal(steam_ids@[0] as nat));
                }
            }
            i = i + 1;
        }
        proof {
            assert(steam_ids@.take(steam_ids@.len() as int) =~= steam_ids@);
        }
        SteamHistoryRequest { key: api_key, steamids: joined, shouldkey: 1 }
    }
}

/// One SourceBan of a player.
pub struct SteamHistoryIndividualResponse {
    /// SteamID of the player.
    pub steamid: String,
    /// Name of the player when banned, where known.
    pub name: Option<String>,
    /// 'Permanent', 'Temp-Ban', 'Expired' or 'Unbanned'.
    pub current_state: String,
    /// Ban reason given by the server, where known.
    pub ban_reason: Option<String>,
    /// Unban reason given by the server, where known.
    pub unban_reason: Option<String>,
    /// When the player was banned.
    pub ban_timestamp: usize,
    /// When the player was unbanned; 0 when unknown or permanent.
    pub unban_timestamp: usize,
    /// The server the ban came from.
    pub server: String,
}

/// The SourceBans of each player asked for, keyed by SteamID.
pub struct SteamHistoryResponse {
    pub response: HashMap<String, Vec<SteamHistoryIndividualResponse>>,
}

} // verus!

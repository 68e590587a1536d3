//! The players a line of console output reveals that are not yet
//! connected, so that their profiles can be looked up.
use crate::console::ConsoleOutput;
use crate::io::g15::G15PlayerView;
use crate::parties::contains_id;
use crate::player::Players;
use vstd::prelude::*;

verus! {

/// Players newly seen on the server.
pub struct NewPlayers(pub Vec<u64>);

/// Whether a dumped slot has a SteamID.
pub open spec fn has_steamid() -> spec_fn(G15PlayerView) -> bool {
    |p: G15PlayerView| p.steamid is Some
}

/// The SteamID of a dumped slot that has one.
pub open spec fn slot_steamid() -> spec_fn(G15PlayerView) -> u64 {
    |p: G15PlayerView| p.steamid->Some_0
}

/// Whether a player is not connected.
pub open spec fn not_connected(connected: Seq<u64>) -> spec_fn(u64) -> bool {
    |id: u64| !connected.contains(id)
}

/// The new players a line of console output reveals: the player of a
/// status line, or every player of a `g15_dumpplayer` dump that has a
/// SteamID, in order, without those already connected. `None` where the
/// output names no player.
pub open spec fn spec_new_players(players: Players, output: ConsoleOutput) -> Option<Seq<u64>> {
    match output {
        ConsoleOutput::Status(s) => Some(seq![s.steamid].filter(not_connected(players.connected@))),
        ConsoleOutput::G15(ps) => {
            let found = crate::player::g15_views(ps@).filter(has_steamid()).map_values(slot_steamid());
            if found.len() == 0 {
                None
            } else {
                Some(found.filter(not_connected(players.connected@)))
            }
        },
        _ => None,
    }
}

/// The new players a line of console output reveals: the player of a
/// status line, or every player of a `g15_dumpplayer` dump that has a
/// SteamID, without those already connected. `None` where the output names
/// no player.
pub fn extract_new_players(players: &Players, output: &ConsoleOutput) -> (r: Option<Vec<u64>>)
    ensures
        match r {
            Some(ids) => spec_new_players(*players, *output) == Some(ids@),
            None => spec_new_players(*players, *output) is None,
        },
{
    let mut ids: Vec<u64> = Vec::new();
    match output {
        ConsoleOutput::Status(s) => {
            ids.push(s.steamid);
            proof {
                assert(ids@ =~= seq![s.steamid]);
            }
        },
        ConsoleOutput::G15(ps) => {
            let ghost views = crate::player::g15_views(ps@);
            let mut i: usize = 0;
            while i < ps.len()
                invariant
                    i <= ps@.len(),
                    views == crate::player::g15_views(ps@),
                    ids@ == views.take(i as int).filter(has_steamid()).map_values(slot_steamid()),
                decreases ps.len() - i,
            {
                proof {
                    reveal(Seq::filter);
                    assert(views.take(i + 1).drop_last() =~= views.take(i as int));
                    assert(views.take(i + 1).last() == ps@[i as int]@);
                }
                match ps[i].steamid {
                    Some(id) => {
                        let ghost before = ids@;
                        ids.push(id);
                        proof {
                            reveal(Seq::filter);
                            assert(ps@[i as int]@.steamid == Some(id));
                            assert(has_steamid()(views.take(i + 1).last()));
                            assert(views.take(i + 1).filter(has_steamid()) == views.take(i as int).filter(has_steamid()).push(ps@[i as int]@));
                            assert(ids@ =~= views.take(i + 1).filter(has_steamid()).map_values(slot_steamid()));
                        }
                    },
                    None => {},
                }
                i = i + 1;
            }
            proof {
                assert(views.take(ps@.len() as int) =~= views);
            }
        },
        _ => {},
    }
    if ids.len() == 0 {
        return None;
    }
    let ghost all = ids@;
    let mut out: Vec<u64> = Vec::new();
    let mut j: usize = 0;
    while j < ids.len()
        invariant
            j <= all.len(),
            ids@ == all,
            out@ == all.take(j as int).filter(not_connected(players.connected@)),
        decreases all.len() - j,
    {
        let id = ids[j];
        proof {
            reveal(Seq::filter);
            assert(all.take(j + 1).drop_last() =~= all.take(j as int));
        }
        if !contains_id(players.connected.as_slice(), id) {
            out.push(id);
        }
        j = j + 1;
    }
    proof {
        assert(all.take(all.len() as int) =~= all);
    }
    Some(out)
}

/// Finds the players a line of console output reveals.
pub struct ExtractNewPlayers;

impl ExtractNewPlayers {
    /// The new players a line of console output reveals (see
    /// `extract_new_players`).
    pub fn handle_message(&self, players: &Players, output: &ConsoleOutput) -> (r: Option<NewPlayers>)
        ensures
            match r {
                Some(n) => spec_new_players(*players, *output) == Some(n.0@),
                None => spec_new_players(*players, *output) is None,
            },
    {
        match extract_new_players(players, output) {
            Some(ids) => Some(NewPlayers(ids)),
            None => None,
        }
    }
}

} // verus!

//! Everything the client knows: the server, the settings and the players.
use vstd::prelude::*;

use crate::console::ConsoleOutput;
use crate::io::g15::G15Player;
use crate::player::{g15_fold, g15_views, new_game_info, status_update, GameInfo, Players};
use crate::server::Server;
use crate::settings::Settings;

verus! {

broadcast use vstd::std_specs::hash::group_hash_axioms;

/// The client's state.
pub struct MACState {
    pub server: Server,
    pub settings: Settings,
    pub players: Players,
}

impl MACState {
    /// Takes in what the console printed: status lines and `g15_dumpplayer`
    /// dumps go to the players, everything else to the server.
    pub fn handle_console_output(&mut self, output: ConsoleOutput)
        ensures
            match output {
                ConsoleOutput::Status(s) => {
                    &&& final(self).players.game_info@[s.steamid]@ == status_update(
                        if old(self).players.game_info@.contains_key(s.steamid) {
                            old(self).players.game_info@[s.steamid]@
                        } else {
                            new_game_info()
                        },
                        s,
                    )
                    &&& final(self).players.connected@.contains(s.steamid)
                    &&& final(self).server == old(self).server
                },
                ConsoleOutput::G15(ps) => {
                    &&& final(self).players.game_info@.map_values(|g: GameInfo| g@) == g15_fold(
                        old(self).players.game_info@.map_values(|g: GameInfo| g@),
                        g15_views(ps@),
                    )
                    &&& final(self).server == old(self).server
                },
                _ => {
                    &&& final(self).players == old(self).players
                    &&& final(self).server.hostname.deep_view() == match output {
                        ConsoleOutput::Hostname(h) => Some(h.0@),
                        _ => old(self).server.hostname.deep_view(),
                    }
                    &&& final(self).server.ip.deep_view() == match output {
                        ConsoleOutput::ServerIP(i) => Some(i.0@),
                        _ => old(self).server.ip.deep_view(),
                    }
                    &&& final(self).server.map.deep_view() == match output {
                        ConsoleOutput::MapName(m) => Some(m.0@),
                        _ => old(self).server.map.deep_view(),
                    }
                    &&& final(self).server.max_players == match output {
                        ConsoleOutput::PlayerCount(c) => Some(c.max),
                        _ => old(self).server.max_players,
                    }
                    &&& final(self).server.num_players == match output {
                        ConsoleOutput::PlayerCount(c) => Some(c.players),
                        _ => old(self).server.num_players,
                    }
                },
            },
            final(self).settings == old(self).settings,
    {
        match output {
            ConsoleOutput::Status(s) => {
                let ghost id = s.steamid;
                self.players.handle_status_line(s);
                proof {
                    assert(self.players.connected@.contains(id)) by {
                        if !old(self).players.connected@.contains(id) {
                            assert(self.players.connected@.last() == id);
                        }
                    }
                }
            },
            ConsoleOutput::G15(ps) => self.players.handle_g15(ps),
            other => {
                self.server.handle_console_output(other);
            },
        }
    }
}

} // verus!

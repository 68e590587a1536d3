//! What the client knows of the server it is connected to.
use vstd::prelude::*;

use crate::console::ConsoleOutput;
use crate::io::regexes::{ChatMessage, PlayerKill};

verus! {

/// The server's game mode.
#[derive(Debug, Clone)]
pub struct Gamemode {
    pub matchmaking: bool,
    pub game_type: String,
    pub vanilla: bool,
}

/// The server's map, address, host name, player counts and game mode, as
/// far as the console has told them.
pub struct Server {
    pub map: Option<String>,
    pub ip: Option<String>,
    pub hostname: Option<String>,
    pub max_players: Option<u32>,
    pub num_players: Option<u32>,
    pub gamemode: Option<Gamemode>,
}

impl Server {
    /// Nothing known yet.
    pub fn new() -> (s: Server)
        ensures
            s.map is None && s.ip is None && s.hostname is None,
            s.max_players is None && s.num_players is None,
            s.gamemode is None,
    {
        Server { map: None, ip: None, hostname: None, max_players: None, num_players: None, gamemode: None }
    }

    /// The map.
    pub fn map(&self) -> (r: Option<String>)
        ensures
            r.deep_view() == self.map.deep_view(),
    {
        match &self.map {
            Some(m) => Some(m.clone()),
            None => None,
        }
    }

    /// The address.
    pub fn ip(&self) -> (r: Option<String>)
        ensures
            r.deep_view() == self.ip.deep_view(),
    {
        match &self.ip {
            Some(m) => Some(m.clone()),
            None => None,
        }
    }

    /// The host name.
    pub fn hostname(&self) -> (r: Option<String>)
        ensures
            r.deep_view() == self.hostname.deep_view(),
    {
        match &self.hostname {
            Some(m) => Some(m.clone()),
            None => None,
        }
    }

    /// The most players the server takes.
    pub fn max_players(&self) -> (r: Option<u32>)
        ensures
            r == self.max_players,
    {
        self.max_players
    }

    /// The players on the server.
    pub fn num_players(&self) -> (r: Option<u32>)
        ensures
            r == self.num_players,
    {
        self.num_players
    }

    /// The game mode.
    pub fn gamemode(&self) -> (r: Option<&Gamemode>)
        ensures
            r == match &self.gamemode {
                Some(g) => Some(g),
                None => None::<&Gamemode>,
            },
    {
        match &self.gamemode {
            Some(g) => Some(g),
            None => None,
        }
    }

    /// Takes in what the console printed: the host name, address, map and
    /// player counts are recorded; chat and kills are looked at and left;
    /// the rest is not about the server. Returns the SteamID of a player
    /// newly added to the server, where there is one: the server records
    /// no players (status lines and `g15_dumpplayer` dumps go to `Players`),
    /// so there never is one.
    pub fn handle_console_output(&mut self, response: ConsoleOutput) -> (added: Option<u64>)
        ensures
            added is None,
            final(self).hostname.deep_view() == match response {
                ConsoleOutput::Hostname(h) => Some(h.0@),
                _ => old(self).hostname.deep_view(),
            },
            final(self).ip.deep_view() == match response {
                ConsoleOutput::ServerIP(i) => Some(i.0@),
                _ => old(self).ip.deep_view(),
            },
            final(self).map.deep_view() == match response {
                ConsoleOutput::MapName(m) => Some(m.0@),
                _ => old(self).map.deep_view(),
            },
            final(self).max_players == match response {
                ConsoleOutput::PlayerCount(c) => Some(c.max),
                _ => old(self).max_players,
            },
            final(self).num_players == match response {
                ConsoleOutput::PlayerCount(c) => Some(c.players),
                _ => old(self).num_players,
            },
            final(self).gamemode == old(self).gamemode,
    {
        match response {
            ConsoleOutput::Chat(chat) => self.handle_chat(chat),
            ConsoleOutput::Kill(kill) => self.handle_kill(kill),
            ConsoleOutput::Hostname(h) => {
                self.hostname = Some(h.0);
            },
            ConsoleOutput::ServerIP(i) => {
                self.ip = Some(i.0);
            },
            ConsoleOutput::MapName(m) => {
                self.map = Some(m.0);
            },
            ConsoleOutput::PlayerCount(c) => {
                self.max_players = Some(c.max);
                self.num_players = Some(c.players);
            },
            ConsoleOutput::G15(_) | ConsoleOutput::Status(_) | ConsoleOutput::DemoStop(_) => {},
        }
        None
    }

    /// A chat message changes nothing about the server.
    pub fn handle_chat(&mut self, chat: ChatMessage)
        ensures
            *final(self) == *old(self),
    {
    }

    /// A kill changes nothing about the server.
    pub fn handle_kill(&mut self, kill: PlayerKill)
        ensures
            *final(self) == *old(self),
    {
    }
}

} // verus!

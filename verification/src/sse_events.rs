//! The events pushed to the clients that listen for server-sent events: chat
//! messages, kills and finished demos from the console, and votes from the
//! demo. The library fills them in; the application stamps each with a
//! time and an id, serialises it and sends it.
use crate::console::ConsoleOutput;
use crate::demo::{
    spec_choice, vote_option_list, DemoEvent, DemoMessage, VoteBook, VoteCastEvent, VoteOptionsEvent,
    VoteStartedEvent,
};
use crate::io::regexes::{ChatMessage, DemoStop, PlayerKill};
use crate::player::{spec_name, Players};
use crate::player_records::string_eq_str;
use crate::text::{spec_decimal, u64_to_decimal};
use vstd::prelude::*;

verus! {

broadcast use vstd::std_specs::hash::group_hash_axioms;

/// A console event that is sent to listeners, and the name of its type.
pub trait SerializableConsoleOutput {
    /// The name of the event's type, such as "ChatMessage".
    fn get_type(&self) -> String;
}

impl SerializableConsoleOutput for ChatMessage {
    fn get_type(&self) -> (s: String)
        ensures
            s@ == "ChatMessage"@,
    {
        "ChatMessage".to_string()
    }
}

impl SerializableConsoleOutput for PlayerKill {
    fn get_type(&self) -> (s: String)
        ensures
            s@ == "PlayerKill"@,
    {
        "PlayerKill".to_string()
    }
}

impl SerializableConsoleOutput for DemoStop {
    fn get_type(&self) -> (s: String)
        ensures
            s@ == "DemoStop"@,
    {
        "DemoStop".to_string()
    }
}

/// A vote event that is sent to listeners, and the name of its kind.
pub trait SerializableVoteEventContent {
    /// The name of the event, such as "VoteCast".
    fn event_name(&self) -> String;
}

impl SerializableVoteEventContent for VoteOptionsEvent {
    fn event_name(&self) -> (s: String)
        ensures
            s@ == "VoteStarted"@,
    {
        "VoteStarted".to_string()
    }
}

impl SerializableVoteEventContent for VoteStartedEvent {
    fn event_name(&self) -> (s: String)
        ensures
            s@ == "VoteCreated"@,
    {
        "VoteCreated".to_string()
    }
}

/// A cast vote, with who cast it and what it chose where that is known.
pub struct VoteCastEventWrapped {
    pub voter: Option<u64>,
    pub voter_name: Option<String>,
    pub choice: Option<String>,
    pub event: VoteCastEvent,
}

impl VoteCastEventWrapped {
    /// A cast vote by `voter`, its name and choice not yet known.
    pub fn from_vote_cast_event(event: VoteCastEvent, voter: Option<u64>) -> (w: VoteCastEventWrapped)
        ensures
            w.event == event,
            w.voter == voter,
            w.voter_name is None,
            w.choice is None,
    {
        VoteCastEventWrapped { voter, voter_name: None, choice: None, event }
    }
}

impl SerializableVoteEventContent for VoteCastEventWrapped {
    fn event_name(&self) -> (s: String)
        ensures
            s@ == "VoteCast"@,
    {
        "VoteCast".to_string()
    }
}

/// A console event to send.
pub enum ConsoleEvent {
    Chat(ChatMessage),
    Kill(PlayerKill),
    DemoStop(DemoStop),
}

/// A vote event to send.
pub enum VoteEvent {
    Started(VoteOptionsEvent),
    Cast(VoteCastEventWrapped),
    Created(VoteStartedEvent),
}

/// The last connected player, in the order they connected, whose game name
/// is `name`.
pub open spec fn last_named(connected: Seq<u64>, players: Players, name: Seq<char>) -> Option<u64>
    decreases connected.len(),
{
    if connected.len() == 0 {
        None
    } else {
        let id = connected.last();
        if players.game_info@.contains_key(id) && players.game_info@[id].name@ == name {
            Some(id)
        } else {
            last_named(connected.drop_last(), players, name)
        }
    }
}

/// The SteamID of the last connected player whose game name is `name` (see
/// `last_named`).
pub fn steamid_for_name(players: &Players, name: &str) -> (r: Option<u64>)
    ensures
        r == last_named(players.connected@, *players, name@),
{
    let mut i: usize = players.connected.len();
    assert(players.connected@.take(i as int) =~= players.connected@);
    while i > 0
        invariant
            i <= players.connected@.len(),
            last_named(players.connected@, *players, name@) == last_named(
                players.connected@.take(i as int),
                *players,
                name@,
            ),
        decreases i,
    {
        let id = players.connected[i - 1];
        proof {
            assert(players.connected@.take(i as int).drop_last() =~= players.connected@.take(i - 1));
            assert(players.connected@.take(i as int).last() == id);
        }
        let hit = match players.game_info.get(&id) {
            Some(gi) => string_eq_str(&gi.name, name),
            None => false,
        };
        if hit {
            return Some(id);
        }
        i = i - 1;
    }
    None
}

/// The SteamID text an event names a player by: the decimal SteamID of the
/// player found, else what the event held.
pub open spec fn filled_id(found: Option<u64>, held: Option<String>) -> Option<Seq<char>> {
    match found {
        Some(id) => Some(spec_decimal(id as nat)),
        None => held.deep_view(),
    }
}

/// A copy of a text that may be absent.
fn copy_opt(s: &Option<String>) -> (r: Option<String>)
    ensures
        r == *s,
{
    match s {
        Some(t) => Some(t.clone()),
        None => None,
    }
}

/// The decimal SteamID of the player found, else the text held.
fn fill_id(found: Option<u64>, held: &Option<String>) -> (r: Option<String>)
    ensures
        r.deep_view() == filled_id(found, *held),
{
    match found {
        Some(id) => Some(u64_to_decimal(id)),
        None => copy_opt(held),
    }
}

/// What is sent for a line of console output: chat messages and kills, with
/// the SteamIDs of the players they name filled in from the last connected
/// player of that name, and finished demos. Nothing for other output.
pub open spec fn console_event_sent(players: Players, message: ConsoleOutput, r: Option<ConsoleEvent>) -> bool {
    match message {
        ConsoleOutput::Chat(m) => r matches Some(ConsoleEvent::Chat(c)) && c.player_name == m.player_name
            && c.message == m.message && c.steamid.deep_view() == filled_id(
            last_named(players.connected@, players, m.player_name@),
            m.steamid,
        ),
        ConsoleOutput::Kill(m) => r matches Some(ConsoleEvent::Kill(k)) && k.killer_name == m.killer_name
            && k.victim_name == m.victim_name && k.weapon == m.weapon && k.crit == m.crit
            && k.killer_steamid.deep_view() == filled_id(
            last_named(players.connected@, players, m.killer_name@),
            m.killer_steamid,
        ) && k.victim_steamid.deep_view() == filled_id(
            last_named(players.connected@, players, m.victim_name@),
            m.victim_steamid,
        ),
        ConsoleOutput::DemoStop(d) => r matches Some(ConsoleEvent::DemoStop(e)) && e == d,
        _ => r is None,
    }
}

/// The event sent for a line of console output (see `console_event_sent`).
pub fn console_event(players: &Players, message: &ConsoleOutput) -> (r: Option<ConsoleEvent>)
    ensures
        console_event_sent(*players, *message, r),
{
    match message {
        ConsoleOutput::Chat(m) => {
            let found = steamid_for_name(players, m.player_name.as_str());
            let steamid = fill_id(found, &m.steamid);
            Some(
                ConsoleEvent::Chat(
                    ChatMessage { player_name: m.player_name.clone(), steamid, message: m.message.clone() },
                ),
            )
        },
        ConsoleOutput::Kill(m) => {
            let killer = steamid_for_name(players, m.killer_name.as_str());
            let victim = steamid_for_name(players, m.victim_name.as_str());
            Some(
                ConsoleEvent::Kill(
                    PlayerKill {
                        killer_name: m.killer_name.clone(),
                        killer_steamid: fill_id(killer, &m.killer_steamid),
                        victim_name: m.victim_name.clone(),
                        victim_steamid: fill_id(victim, &m.victim_steamid),
                        weapon: m.weapon.clone(),
                        crit: m.crit,
                    },
                ),
            )
        },
        ConsoleOutput::DemoStop(d) => Some(
            ConsoleEvent::DemoStop(DemoStop { seconds: d.seconds.clone(), frames: d.frames }),
        ),
        _ => None,
    }
}

/// A copy of the options of a vote.
fn copy_options(o: &VoteOptionsEvent) -> (r: VoteOptionsEvent)
    ensures
        r == *o,
{
    VoteOptionsEvent {
        count: o.count,
        option_1: o.option_1.clone(),
        option_2: o.option_2.clone(),
        option_3: o.option_3.clone(),
        option_4: o.option_4.clone(),
        option_5: o.option_5.clone(),
        voteidx: o.voteidx,
    }
}

/// A copy of a called vote.
fn copy_started(e: &VoteStartedEvent) -> (r: VoteStartedEvent)
    ensures
        r == *e,
{
    VoteStartedEvent {
        issue: e.issue.clone(),
        param_1: e.param_1.clone(),
        team: e.team,
        initiator: e.initiator,
        voteidx: e.voteidx,
    }
}

/// The name of a player, where one is known.
fn name_if_known(players: &Players, steamid: Option<u64>) -> (r: Option<String>)
    ensures
        r.deep_view() == match steamid {
            Some(id) => spec_name(*players, id),
            None => None,
        },
{
    match steamid {
        Some(id) => match players.get_name(id) {
            Some(n) => Some(n.to_string()),
            None => None,
        },
        None => None,
    }
}

/// A copy of a cast vote.
fn copy_cast(e: &VoteCastEvent) -> (r: VoteCastEvent)
    ensures
        r == *e,
{
    VoteCastEvent { vote_option: e.vote_option, team: e.team, entity_id: e.entity_id, voteidx: e.voteidx }
}

/// Pushes console and demo events to listeners; keeps the options of the
/// votes seen, to tell what a cast vote chose.
pub struct SseEventBroadcaster {
    votes: VoteBook,
}

impl SseEventBroadcaster {
    /// No votes seen.
    pub fn new() -> (b: SseEventBroadcaster)
        ensures
            b.votes_seen() == Map::<u32, Seq<Seq<char>>>::empty(),
    {
        SseEventBroadcaster { votes: VoteBook::new() }
    }

    /// The options of each vote seen.
    pub closed spec fn votes_seen(&self) -> Map<u32, Seq<Seq<char>>> {
        self.votes@
    }

    /// The event sent for a line of console output (see `console_event_sent`).
    pub fn handle_console_message(&self, players: &Players, message: &ConsoleOutput) -> (r: Option<ConsoleEvent>)
        ensures
            console_event_sent(*players, *message, r),
    {
        console_event(players, message)
    }

    /// The event sent for a demo event: the options of a vote, which are
    /// also kept; a cast vote, with its voter, the voter's name and the
    /// option chosen where they are known; a called vote. Nothing for the
    /// latest tick.
    pub fn handle_demo_message(&mut self, players: &Players, message: &DemoMessage) -> (r: Option<VoteEvent>)
        ensures
            match message.event {
                DemoEvent::VoteOptions(o) => r matches Some(VoteEvent::Started(s)) && s == o
                    && final(self).votes_seen() == old(self).votes_seen().insert(o.voteidx, vote_option_list(o)),
                DemoEvent::VoteCast(e, steamid) => r matches Some(VoteEvent::Cast(w)) && w.event == e
                    && w.voter == steamid && w.voter_name.deep_view() == match steamid {
                    Some(id) => spec_name(*players, id),
                    None => None,
                } && w.choice.deep_view() == spec_choice(old(self).votes_seen(), e.voteidx, e.vote_option)
                    && final(self).votes_seen() == old(self).votes_seen(),
                DemoEvent::VoteStarted(e) => r matches Some(VoteEvent::Created(c)) && c == e
                    && final(self).votes_seen() == old(self).votes_seen(),
                DemoEvent::LastestTick => r is None && final(self).votes_seen() == old(self).votes_seen(),
            },
    {
        match &message.event {
            DemoEvent::VoteOptions(o) => {
                self.votes.record_options(o);
                Some(VoteEvent::Started(copy_options(o)))
            },
            DemoEvent::VoteCast(e, steamid) => {
                let name = name_if_known(players, *steamid);
                let vote = self.votes.choice(e.voteidx, e.vote_option);
                let mut wrapper = VoteCastEventWrapped::from_vote_cast_event(copy_cast(e), *steamid);
                wrapper.voter = *steamid;
                wrapper.voter_name = name;
                wrapper.choice = vote;
                Some(VoteEvent::Cast(wrapper))
            },
            DemoEvent::VoteStarted(e) => Some(VoteEvent::Created(copy_started(e))),
            DemoEvent::LastestTick => None,
        }
    }
}

/// Pushes chat messages, kills and finished demos from the console to
/// listeners.
pub struct SseBroadcastMessages;

impl SseBroadcastMessages {
    /// The event sent for a line of console output (see `console_event_sent`).
    pub fn handle_message(&self, players: &Players, message: &ConsoleOutput) -> (r: Option<ConsoleEvent>)
        ensures
            console_event_sent(*players, *message, r),
    {
        console_event(players, message)
    }
}

/// Pushes the options of votes and the votes cast to listeners; a cast vote
/// always names a voter ("Someone" where none is known) and a choice
/// ("Invalid vote" where none is known).
pub struct SseBroadcastVotes {
    votes: VoteBook,
}

impl SseBroadcastVotes {
    /// No votes seen.
    pub fn new() -> (b: SseBroadcastVotes)
        ensures
            b.votes_seen() == Map::<u32, Seq<Seq<char>>>::empty(),
    {
        SseBroadcastVotes { votes: VoteBook::new() }
    }

    /// The options of each vote seen.
    pub closed spec fn votes_seen(&self) -> Map<u32, Seq<Seq<char>>> {
        self.votes@
    }

    /// The event sent for a demo event: the options of a vote, which are
    /// also kept, and a cast vote. Nothing for other events.
    pub fn handle_message(&mut self, players: &Players, message: &DemoMessage) -> (r: Option<VoteEvent>)
        ensures
            match message.event {
                DemoEvent::VoteOptions(o) => r matches Some(VoteEvent::Started(s)) && s == o
                    && final(self).votes_seen() == old(self).votes_seen().insert(o.voteidx, vote_option_list(o)),
                DemoEvent::VoteCast(e, steamid) => r matches Some(VoteEvent::Cast(w)) && w.event == e
                    && w.voter == steamid && w.voter_name.deep_view() == Some(
                    crate::demo::voter_name(*players, steamid),
                ) && w.choice.deep_view() == Some(crate::demo::vote_word(old(self).votes_seen(), e))
                    && final(self).votes_seen() == old(self).votes_seen(),
                _ => r is None && final(self).votes_seen() == old(self).votes_seen(),
            },
    {
        match &message.event {
            DemoEvent::VoteOptions(o) => {
                self.votes.record_options(o);
                Some(VoteEvent::Started(copy_options(o)))
            },
            DemoEvent::VoteCast(e, steamid) => {
                let name = crate::demo::name_of_voter(players, *steamid);
                let vote = match self.votes.choice(e.voteidx, e.vote_option) {
                    Some(s) => s,
                    None => "Invalid vote".to_string(),
                };
                let mut wrapper = VoteCastEventWrapped::from_vote_cast_event(copy_cast(e), *steamid);
                wrapper.choice = Some(vote);
                wrapper.voter = *steamid;
                wrapper.voter_name = Some(name);
                Some(VoteEvent::Cast(wrapper))
            },
            _ => None,
        }
    }
}

} // verus!

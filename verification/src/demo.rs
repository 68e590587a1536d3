//! Demo recordings: the bytes read from a demo as it is written, the vote
//! events found in it, and what is done with both.
use crate::player::{spec_name, Players};
use crate::player_records::{string_eq_str, strings_view};
use crate::steamid::{from_steam3, spec_from_steam3};
use crate::text::{push_str, spec_decimal, u64_to_decimal};
use std::collections::HashMap;
use bitbuffer::{BitRead, BitReadBuffer, BitReadStream, LittleEndian};
use tf_demo_parser::demo::gamevent::GameEvent;
use tf_demo_parser::demo::header::Header;
use tf_demo_parser::demo::packet::Packet;
use tf_demo_parser::demo::parser::gamestateanalyser::{GameState, GameStateAnalyser};
use tf_demo_parser::demo::parser::{DemoHandler, RawPacketStream};
use vstd::prelude::*;

verus! {

broadcast use vstd::std_specs::hash::group_hash_axioms;

/// Bytes newly read from a demo being recorded. `id` tells apart two
/// recordings written to the same file one after the other.
pub struct DemoBytes {
    pub file_path: String,
    pub id: usize,
    pub bytes: Vec<u8>,
}

/// A vote was called.
pub struct VoteStartedEvent {
    pub issue: String,
    pub param_1: String,
    pub team: u8,
    pub initiator: u32,
    pub voteidx: u32,
}

/// The options of a vote. Only the first `count` are offered, and the event
/// carries at most five.
pub struct VoteOptionsEvent {
    pub count: u8,
    pub option_1: String,
    pub option_2: String,
    pub option_3: String,
    pub option_4: String,
    pub option_5: String,
    pub voteidx: u32,
}

/// A player voted.
pub struct VoteCastEvent {
    pub vote_option: u8,
    pub team: u16,
    pub entity_id: u32,
    pub voteidx: u32,
}

/// What a demo told of: the vote events, with the SteamID of a voter where
/// the demo names it.
pub enum DemoEvent {
    VoteStarted(VoteStartedEvent),
    VoteOptions(VoteOptionsEvent),
    VoteCast(VoteCastEvent, Option<u64>),
    LastestTick,
}

/// An event of a demo, with the tick it happened at.
pub struct DemoMessage {
    pub tick: u32,
    pub event: DemoEvent,
}

/// The text of option `i` of a vote: one of the five it carries, else empty.
pub open spec fn option_text(o: VoteOptionsEvent, i: int) -> Seq<char> {
    if i == 0 {
        o.option_1@
    } else if i == 1 {
        o.option_2@
    } else if i == 2 {
        o.option_3@
    } else if i == 3 {
        o.option_4@
    } else if i == 4 {
        o.option_5@
    } else {
        Seq::empty()
    }
}

/// The options of a vote, `count` of them.
pub open spec fn vote_option_list(o: VoteOptionsEvent) -> Seq<Seq<char>> {
    Seq::new(o.count as nat, |i: int| option_text(o, i))
}

/// The options of a vote, `count` of them; past the fifth they are empty.
pub fn vote_options(o: &VoteOptionsEvent) -> (v: Vec<String>)
    ensures
        strings_view(v@) == vote_option_list(*o),
{
    let mut v: Vec<String> = Vec::new();
    let mut i: u8 = 0;
    while i < o.count
        invariant
            i <= o.count,
            strings_view(v@) == vote_option_list(*o).take(i as int),
        decreases o.count - i,
    {
        let opt = if i == 0 {
            o.option_1.clone()
        } else if i == 1 {
            o.option_2.clone()
        } else if i == 2 {
            o.option_3.clone()
        } else if i == 3 {
            o.option_4.clone()
        } else if i == 4 {
            o.option_5.clone()
        } else {
            String::new()
        };
        proof {
            assert(opt@ == option_text(*o, i as int));
            assert(strings_view(v@.push(opt)) =~= strings_view(v@).push(opt@));
            assert(vote_option_list(*o).take(i + 1) =~= vote_option_list(*o).take(i as int).push(
                option_text(*o, i as int),
            ));
        }
        v.push(opt);
        i = i + 1;
    }
    proof {
        assert(vote_option_list(*o).take(o.count as int) =~= vote_option_list(*o));
    }
    v
}

/// The option a cast vote chose, where the options of its vote are known
/// and it names one of them.
pub open spec fn spec_choice(book: Map<u32, Seq<Seq<char>>>, voteidx: u32, option: u8) -> Option<Seq<char>> {
    if book.contains_key(voteidx) && (option as int) < book[voteidx].len() {
        Some(book[voteidx][option as int])
    } else {
        None
    }
}

/// Once the options of a vote are recorded, a vote cast in it chooses the
/// option it names, where it names one of the vote's options; choices in
/// other votes are as before.
pub proof fn lemma_choice_after_options(book: Map<u32, Seq<Seq<char>>>, o: VoteOptionsEvent, voteidx: u32, option: u8)
    ensures
        spec_choice(book.insert(o.voteidx, vote_option_list(o)), voteidx, option) == if voteidx == o.voteidx {
            if (option as int) < o.count {
                Some(option_text(o, option as int))
            } else {
                None
            }
        } else {
            spec_choice(book, voteidx, option)
        },
{
}

/// The options of each vote seen, by the vote's index.
pub struct VoteBook {
    votes: HashMap<u32, Vec<String>>,
}

impl View for VoteBook {
    type V = Map<u32, Seq<Seq<char>>>;

    closed spec fn view(&self) -> Map<u32, Seq<Seq<char>>> {
        self.votes@.map_values(|v: Vec<String>| strings_view(v@))
    }
}

impl VoteBook {
    /// No votes seen.
    pub fn new() -> (b: VoteBook)
        ensures
            b@ == Map::<u32, Seq<Seq<char>>>::empty(),
    {
        let b = VoteBook { votes: HashMap::new() };
        assert(b@ =~= Map::<u32, Seq<Seq<char>>>::empty());
        b
    }

    /// Records the options of a vote, in place of any recorded before under
    /// its index.
    pub fn record_options(&mut self, o: &VoteOptionsEvent)
        ensures
            final(self)@ == old(self)@.insert(o.voteidx, vote_option_list(*o)),
    {
        let v = vote_options(o);
        self.votes.insert(o.voteidx, v);
        assert(self@ =~= old(self)@.insert(o.voteidx, vote_option_list(*o)));
    }

    /// The option a cast vote chose (see `spec_choice`).
    pub fn choice(&self, voteidx: u32, option: u8) -> (r: Option<String>)
        ensures
            r.deep_view() == spec_choice(self@, voteidx, option),
    {
        match self.votes.get(&voteidx) {
            Some(v) => {
                if (option as usize) < v.len() {
                    Some(v[option as usize].clone())
                } else {
                    None
                }
            },
            None => None,
        }
    }
}

/// The name a voter goes by: the player's name where it is known, else
/// "Someone".
pub open spec fn voter_name(players: Players, steamid: Option<u64>) -> Seq<char> {
    match steamid {
        Some(id) => match spec_name(players, id) {
            Some(n) => n,
            None => "Someone"@,
        },
        None => "Someone"@,
    }
}

/// What a cast vote chose, as it is printed: the option, else "Invalid vote".
pub open spec fn vote_word(book: Map<u32, Seq<Seq<char>>>, e: VoteCastEvent) -> Seq<char> {
    match spec_choice(book, e.voteidx, e.vote_option) {
        Some(s) => s,
        None => "Invalid vote"@,
    }
}

/// Each option of a vote, indented by a tab.
pub open spec fn indented(opts: Seq<Seq<char>>) -> Seq<Seq<char>> {
    opts.map_values(|s: Seq<char>| "\t"@ + s)
}

/// The lines printed for a demo event, given the votes seen before it.
pub open spec fn printed_lines(book: Map<u32, Seq<Seq<char>>>, players: Players, m: DemoMessage) -> Seq<Seq<char>> {
    match m.event {
        DemoEvent::VoteOptions(o) => seq!["Vote options:"@] + indented(vote_option_list(o)),
        DemoEvent::VoteCast(e, steamid) => seq![vote_word(book, e) + " - "@ + voter_name(players, steamid)],
        DemoEvent::VoteStarted(e) => seq![e.issue@ + " - called by "@ + spec_decimal(e.initiator as nat)],
        DemoEvent::LastestTick => Seq::empty(),
    }
}

/// The votes seen after a demo event: a vote's options are recorded.
pub open spec fn book_after(book: Map<u32, Seq<Seq<char>>>, m: DemoMessage) -> Map<u32, Seq<Seq<char>>> {
    match m.event {
        DemoEvent::VoteOptions(o) => book.insert(o.voteidx, vote_option_list(o)),
        _ => book,
    }
}

/// The name a voter goes by (see `voter_name`).
pub fn name_of_voter(players: &Players, steamid: Option<u64>) -> (s: String)
    ensures
        s@ == voter_name(*players, steamid),
{
    match steamid {
        Some(id) => match players.get_name(id) {
            Some(n) => n.to_string(),
            None => "Someone".to_string(),
        },
        None => "Someone".to_string(),
    }
}

/// Prints the votes of a demo as they happen.
pub struct PrintVotes {
    votes: VoteBook,
}

impl PrintVotes {
    /// No votes seen.
    pub fn new() -> (p: PrintVotes)
        ensures
            p.votes_seen() == Map::<u32, Seq<Seq<char>>>::empty(),
    {
        PrintVotes { votes: VoteBook::new() }
    }

    /// The options of each vote seen.
    pub closed spec fn votes_seen(&self) -> Map<u32, Seq<Seq<char>>> {
        self.votes@
    }

    /// The lines to print for a demo event (see `printed_lines`); the options
    /// of a vote are kept to name what later votes chose.
    pub fn handle_message(&mut self, players: &Players, msg: &DemoMessage) -> (lines: Vec<String>)
        ensures
            strings_view(lines@) == printed_lines(old(self).votes_seen(), *players, *msg),
            final(self).votes_seen() == book_after(old(self).votes_seen(), *msg),
    {
        let mut lines: Vec<String> = Vec::new();
        match &msg.event {
            DemoEvent::VoteOptions(o) => {
                lines.push("Vote options:".to_string());
                let opts = vote_options(o);
                let ghost list = vote_option_list(*o);
                let mut i: usize = 0;
                while i < opts.len()
                    invariant
                        i <= opts@.len(),
                        strings_view(opts@) == list,
                        strings_view(lines@) == seq!["Vote options:"@] + indented(list.take(i as int)),
                    decreases opts.len() - i,
                {
                    let mut line = "\t".to_string();
                    push_str(&mut line, opts[i].as_str());
                    proof {
                        assert(opts@[i as int]@ == list[i as int]);
                        assert(list.take(i + 1) =~= list.take(i as int).push(list[i as int]));
                        assert(indented(list.take(i + 1)) =~= indented(list.take(i as int)).push(line@));
                        assert(strings_view(lines@.push(line)) =~= strings_view(lines@).push(line@));
                        assert(seq!["Vote options:"@] + indented(list.take(i + 1)) =~= strings_view(
                            lines@.push(line),
                        ));
                    }
                    lines.push(line);
                    i = i + 1;
                }
                proof {
                    assert(list.take(opts@.len() as int) =~= list);
                }
                self.votes.record_options(o);
            },
            DemoEvent::VoteCast(e, steamid) => {
                let mut line = match self.votes.choice(e.voteidx, e.vote_option) {
                    Some(s) => s,
                    None => "Invalid vote".to_string(),
                };
                push_str(&mut line, " - ");
                let name = name_of_voter(players, *steamid);
                push_str(&mut line, name.as_str());
                lines.push(line);
                proof {
                    assert(strings_view(lines@) =~= printed_lines(old(self).votes_seen(), *players, *msg));
                }
            },
            DemoEvent::VoteStarted(e) => {
                let mut line = e.issue.clone();
                push_str(&mut line, " - called by ");
                let who = u64_to_decimal(e.initiator as u64);
                push_str(&mut line, who.as_str());
                lines.push(line);
                proof {
                    assert(strings_view(lines@) =~= printed_lines(old(self).votes_seen(), *players, *msg));
                }
            },
            DemoEvent::LastestTick => {
                proof {
                    assert(strings_view(lines@) =~= printed_lines(old(self).votes_seen(), *players, *msg));
                }
            },
        }
        lines
    }
}

/// A player the demo knows of: the entity it plays as, and its Steam3 id.
pub struct DemoPlayerInfo {
    pub entity_id: u32,
    pub steam_id: String,
}

/// A game event read from a demo packet: a vote event, or any other.
pub enum DemoGameEvent {
    VoteStarted(VoteStartedEvent),
    VoteOptions(VoteOptionsEvent),
    VoteCast(VoteCastEvent),
    Other,
}

/// The SteamID of the first player, in the demo's order, that plays as
/// `entity` and whose Steam3 id reads; players with no info are passed over.
pub open spec fn spec_voter(ps: Seq<Option<DemoPlayerInfo>>, entity: u32) -> Option<u64>
    decreases ps.len(),
{
    if ps.len() == 0 {
        None
    } else {
        let here = match ps[0] {
            Some(i) => if i.entity_id == entity {
                spec_from_steam3(i.steam_id@)
            } else {
                None
            },
            None => None,
        };
        if here is Some {
            here
        } else {
            spec_voter(ps.drop_first(), entity)
        }
    }
}

/// The SteamID of the player that plays as `entity` (see `spec_voter`).
pub fn voter_of(players: &[Option<DemoPlayerInfo>], entity: u32) -> (r: Option<u64>)
    ensures
        r == spec_voter(players@, entity),
{
    let mut i: usize = 0;
    assert(players@.subrange(0, players@.len() as int) =~= players@);
    while i < players.len()
        invariant
            i <= players@.len(),
            spec_voter(players@, entity) == spec_voter(players@.subrange(i as int, players@.len() as int), entity),
        decreases players.len() - i,
    {
        let ghost rest = players@.subrange(i as int, players@.len() as int);
        proof {
            assert(rest.drop_first() =~= players@.subrange(i + 1, players@.len() as int));
            assert(rest[0] == players@[i as int]);
        }
        match &players[i] {
            Some(info) => {
                if info.entity_id == entity {
                    let id = from_steam3(info.steam_id.as_str());
                    if id.is_some() {
                        return id;
                    }
                }
            },
            None => {},
        }
        i = i + 1;
    }
    proof {
        assert(players@.subrange(i as int, players@.len() as int).len() == 0);
    }
    None
}

/// The message a game event makes at `tick`: vote events are kept, with the
/// voter of a cast vote looked up; other events make none.
pub open spec fn message_of(tick: u32, ev: DemoGameEvent, players: Seq<Option<DemoPlayerInfo>>) -> Option<DemoMessage> {
    match ev {
        DemoGameEvent::VoteStarted(e) => Some(DemoMessage { tick, event: DemoEvent::VoteStarted(e) }),
        DemoGameEvent::VoteOptions(e) => Some(DemoMessage { tick, event: DemoEvent::VoteOptions(e) }),
        DemoGameEvent::VoteCast(e) => Some(
            DemoMessage { tick, event: DemoEvent::VoteCast(e, spec_voter(players, e.entity_id)) },
        ),
        DemoGameEvent::Other => None,
    }
}

/// The messages the game events of one packet make, in order.
pub open spec fn spec_messages(tick: u32, evs: Seq<DemoGameEvent>, players: Seq<Option<DemoPlayerInfo>>) -> Seq<DemoMessage>
    decreases evs.len(),
{
    if evs.len() == 0 {
        Seq::empty()
    } else {
        let rest = spec_messages(tick, evs.drop_last(), players);
        match message_of(tick, evs.last(), players) {
            Some(m) => rest.push(m),
            None => rest,
        }
    }
}

/// The messages the game events of a packet at `tick` make (see
/// `spec_messages`), given the players the demo knows of.
pub fn messages_from_events(tick: u32, events: Vec<DemoGameEvent>, players: &[Option<DemoPlayerInfo>]) -> (out: Vec<DemoMessage>)
    ensures
        out@ == spec_messages(tick, events@, players@),
{
    let ghost evs = events@;
    let mut out: Vec<DemoMessage> = Vec::new();
    for ev in it: events
        invariant
            it.seq() == evs,
            out@ == spec_messages(tick, evs.take(it.index()), players@),
    {
        proof {
            assert(evs.take(it.index() + 1).drop_last() =~= evs.take(it.index()));
            assert(evs.take(it.index() + 1).last() == ev);
        }
        match ev {
            DemoGameEvent::VoteStarted(e) => {
                out.push(DemoMessage { tick, event: DemoEvent::VoteStarted(e) });
            },
            DemoGameEvent::VoteOptions(e) => {
                out.push(DemoMessage { tick, event: DemoEvent::VoteOptions(e) });
            },
            DemoGameEvent::VoteCast(e) => {
                let voter = voter_of(players, e.entity_id);
                out.push(DemoMessage { tick, event: DemoEvent::VoteCast(e, voter) });
            },
            DemoGameEvent::Other => {},
        }
    }
    proof {
        assert(evs.take(evs.len() as int) =~= evs);
    }
    out
}

/// How a file in the demo folder changed.
#[derive(Debug, Clone, Copy, PartialEq, Eq, Structural)]
pub enum FileEventKind {
    Create,
    ModifyData,
    Other,
}

/// Seconds without a file event after which the current demo is read anyway.
pub const DEMO_POLL_SECS: u64 = 3;

/// Which demo is followed, and how far it has been read. A recording made
/// over the one followed gets the next `current_id`.
pub struct DemoWatcher {
    pub current_id: usize,
    pub current_demo: Option<String>,
    pub offset: u64,
}

/// Whether `w` follows the file at `path`.
pub open spec fn follows(w: DemoWatcher, path: Seq<char>) -> bool {
    w.current_demo matches Some(p) && p@ == path
}

/// `w` once it follows the demo at `path` from its start.
pub open spec fn switched(w: DemoWatcher, n: DemoWatcher, path: Seq<char>) -> bool {
    follows(n, path) && n.offset == 0 && n.current_id == w.current_id
}

impl DemoWatcher {
    /// No demo followed yet.
    pub fn new() -> (w: DemoWatcher)
        ensures
            w.current_id == 0,
            w.current_demo is None,
            w.offset == 0,
    {
        DemoWatcher { current_id: 0, current_demo: None, offset: 0 }
    }

    /// A file event on `path`; `is_demo` tells whether its extension is
    /// `dem`. A created demo, or a demo written to that is not the one
    /// followed, is followed from its start. Returns whether the followed
    /// demo is read now: after a creation, and after data is written to a
    /// demo.
    pub fn on_file_event(&mut self, kind: FileEventKind, path: &str, is_demo: bool) -> (read: bool)
        ensures
            kind == FileEventKind::Create ==> read && if is_demo {
                switched(*old(self), *final(self), path@)
            } else {
                *final(self) == *old(self)
            },
            kind == FileEventKind::ModifyData ==> if follows(*old(self), path@) {
                read && *final(self) == *old(self)
            } else if is_demo {
                read && switched(*old(self), *final(self), path@)
            } else {
                !read && *final(self) == *old(self)
            },
            kind == FileEventKind::Other ==> !read && *final(self) == *old(self),
    {
        match kind {
            FileEventKind::Create => {
                if is_demo {
                    self.current_demo = Some(path.to_string());
                    self.offset = 0;
                }
                true
            },
            FileEventKind::ModifyData => {
                let same = match &self.current_demo {
                    Some(p) => string_eq_str(p, path),
                    None => false,
                };
                if same {
                    true
                } else if is_demo {
                    self.current_demo = Some(path.to_string());
                    self.offset = 0;
                    true
                } else {
                    false
                }
            },
            FileEventKind::Other => false,
        }
    }

    /// Whether the followed demo is read for want of events, after
    /// `elapsed_secs` without one.
    pub fn poll_due(elapsed_secs: u64) -> (b: bool)
        ensures
            b == (elapsed_secs > DEMO_POLL_SECS),
    {
        elapsed_secs > DEMO_POLL_SECS
    }

    /// The followed demo file is `len` bytes long. Shorter than what was read,
    /// it is taken for a new recording over the old one, read from its start;
    /// as long, there is nothing to read. Returns whether to read.
    pub fn on_length(&mut self, len: u64) -> (read: bool)
        requires
            old(self).current_id < usize::MAX,
        ensures
            len < old(self).offset ==> read && final(self).current_id == old(self).current_id + 1
                && final(self).offset == 0 && final(self).current_demo == old(self).current_demo,
            len == old(self).offset ==> !read && *final(self) == *old(self),
            len > old(self).offset ==> read && *final(self) == *old(self),
    {
        if len < self.offset {
            self.current_id = self.current_id + 1;
            self.offset = 0;
            true
        } else if len == self.offset {
            false
        } else {
            true
        }
    }

    /// `n` bytes were read from the offset on.
    pub fn on_bytes_read(&mut self, n: u64)
        requires
            old(self).offset + n <= u64::MAX,
        ensures
            final(self).offset == old(self).offset + n,
            final(self).current_id == old(self).current_id,
            final(self).current_demo == old(self).current_demo,
    {
        self.offset = self.offset + n;
    }

    /// The bytes read, as a message of the followed demo; `None` where no
    /// demo is followed.
    pub fn demo_bytes(&self, bytes: Vec<u8>) -> (r: Option<DemoBytes>)
        ensures
            match self.current_demo {
                Some(p) => r matches Some(b) && b.file_path == p && b.id == self.current_id && b.bytes == bytes,
                None => r is None,
            },
    {
        match &self.current_demo {
            Some(p) => Some(DemoBytes { file_path: p.clone(), id: self.current_id, bytes }),
            None => None,
        }
    }
}

/// Where the bytes written at the end of a recording start in a demo file.
pub const LATE_BYTES_START: u64 = 1056;

/// How many bytes are written at the end of a recording.
pub const LATE_BYTES_LEN: u64 = 16;

/// Whether a demo file of `file_len` bytes is long enough to hold the bytes
/// written at the end of a recording.
pub fn late_bytes_in_file(file_len: u64) -> (b: bool)
    ensures
        b == (file_len >= LATE_BYTES_START + LATE_BYTES_LEN),
{
    file_len >= LATE_BYTES_START + LATE_BYTES_LEN
}

/// Whether the bytes at the end of a recording have been written: their
/// first eight bytes are all zero until they are.
pub open spec fn spec_late_bytes_written(bytes: Seq<u8>) -> bool {
    bytes.len() > 8 && exists|i: int| 0 <= i < 8 && bytes[i] != 0
}

/// Whether the bytes at the end of a recording have been written (see
/// `spec_late_bytes_written`).
pub fn late_bytes_written(bytes: &[u8]) -> (b: bool)
    ensures
        b == spec_late_bytes_written(bytes@),
{
    if bytes.len() <= 8 {
        return false;
    }
    let mut i: usize = 0;
    while i < 8
        invariant
            i <= 8 < bytes@.len(),
            forall|j: int| 0 <= j < i ==> bytes@[j] == 0,
        decreases 8 - i,
    {
        if bytes[i] != 0 {
            return true;
        }
        i = i + 1;
    }
    false
}

/// A demo followed: its file, and which recording in it.
pub struct DemoKey {
    pub file_path: String,
    pub id: usize,
}

/// Where the upload session of the current demo stands.
#[derive(Debug, Clone, Copy, PartialEq, Eq, Structural)]
pub enum SessionState {
    Uninit,
    Open,
    Error,
    Closed,
}

/// What to do with a chunk of bytes to upload.
#[derive(Debug, Clone, Copy, PartialEq, Eq, Structural)]
pub enum UploadStep {
    Send,
    Wait,
    Stop,
}

/// What follows the parsing of a chunk: whether to open an upload session,
/// to upload the chunk, and to look for the bytes written at the end.
#[derive(Debug, Clone, Copy, PartialEq, Eq, Structural)]
pub struct UploadPlan {
    pub open_session: bool,
    pub upload: bool,
    pub check_late_bytes: bool,
}

/// The demos followed, and what is known of the current one.
pub struct DemoManager {
    pub previous_demos: Vec<DemoKey>,
    pub current_demo: Option<DemoKey>,
    pub header_parsed: bool,
    pub session: SessionState,
}

/// Whether `m`'s current demo is the recording `id` of `path`.
pub open spec fn is_current(m: DemoManager, path: Seq<char>, id: usize) -> bool {
    m.current_demo matches Some(d) && d.file_path@ == path && d.id == id
}

impl DemoManager {
    /// No demo followed yet.
    pub fn new() -> (m: DemoManager)
        ensures
            m.previous_demos@.len() == 0,
            m.current_demo is None,
            !m.header_parsed,
            m.session == SessionState::Uninit,
    {
        DemoManager {
            previous_demos: Vec::new(),
            current_demo: None,
            header_parsed: false,
            session: SessionState::Uninit,
        }
    }

    /// Bytes of recording `id` of `file_path` arrived. Another demo than the
    /// current one becomes current, with no header and no session yet, and
    /// the old one joins the previous ones. Returns whether that happened.
    pub fn begin(&mut self, file_path: &str, id: usize) -> (started: bool)
        ensures
            started == !is_current(*old(self), file_path@, id),
            started ==> is_current(*final(self), file_path@, id) && !final(self).header_parsed
                && final(self).session == SessionState::Uninit && final(self).previous_demos@ == match old(
                self,
            ).current_demo {
                Some(d) => old(self).previous_demos@.push(d),
                None => old(self).previous_demos@,
            },
            !started ==> *final(self) == *old(self),
    {
        let same = match &self.current_demo {
            Some(d) => d.id == id && string_eq_str(&d.file_path, file_path),
            None => false,
        };
        if same {
            return false;
        }
        self.new_demo(file_path, id);
        true
    }

    /// Follows the recording `id` of `file_path` from now on: the current
    /// demo, if any, joins the previous ones, and the new one has no header
    /// and no session yet.
    pub fn new_demo(&mut self, file_path: &str, id: usize)
        ensures
            is_current(*final(self), file_path@, id),
            !final(self).header_parsed,
            final(self).session == SessionState::Uninit,
            final(self).previous_demos@ == match old(self).current_demo {
                Some(d) => old(self).previous_demos@.push(d),
                None => old(self).previous_demos@,
            },
    {
        let old_demo = self.current_demo.take();
        match old_demo {
            Some(d) => self.previous_demos.push(d),
            None => {},
        }
        self.current_demo = Some(DemoKey { file_path: file_path.to_string(), id });
        self.header_parsed = false;
        self.session = SessionState::Uninit;
    }

    /// The file of the current demo, if one is followed.
    pub fn current_demo_path(&self) -> (r: Option<&str>)
        ensures
            match self.current_demo {
                Some(d) => r matches Some(p) && p@ == d.file_path@,
                None => r is None,
            },
    {
        match &self.current_demo {
            Some(d) => Some(d.file_path.as_str()),
            None => None,
        }
    }

    /// Whether a chunk is parsed: always, but where the header is known and
    /// only minimal parsing is asked for.
    pub fn should_parse(&self, minimal_demo_parsing: bool) -> (b: bool)
        ensures
            b == !(self.header_parsed && minimal_demo_parsing),
    {
        !(self.header_parsed && minimal_demo_parsing)
    }

    /// A chunk was parsed, and `header_now` tells whether the header is now
    /// known. With uploads on, the chunk is uploaded, the end of the file
    /// looked at, and a session opened where the header was just found.
    pub fn after_parse(&mut self, header_now: bool, upload_demos: bool) -> (plan: UploadPlan)
        ensures
            plan.open_session == (upload_demos && header_now && !old(self).header_parsed),
            plan.upload == upload_demos,
            plan.check_late_bytes == upload_demos,
            final(self).header_parsed == header_now,
            final(self).current_demo == old(self).current_demo,
            final(self).previous_demos == old(self).previous_demos,
            final(self).session == old(self).session,
    {
        let plan = UploadPlan {
            open_session: upload_demos && header_now && !self.header_parsed,
            upload: upload_demos,
            check_late_bytes: upload_demos,
        };
        self.header_parsed = header_now;
        plan
    }

    /// The upload session was asked for; `ok` tells whether it opened.
    pub fn on_session_opened(&mut self, ok: bool)
        requires
            old(self).session != SessionState::Open,
        ensures
            final(self).session == if ok {
                SessionState::Open
            } else {
                SessionState::Error
            },
            final(self).current_demo == old(self).current_demo,
            final(self).previous_demos == old(self).previous_demos,
            final(self).header_parsed == old(self).header_parsed,
    {
        self.session = if ok {
            SessionState::Open
        } else {
            SessionState::Error
        };
    }

    /// What to do with a chunk to upload: send it on an open session, wait
    /// for a session still being opened, and drop it otherwise.
    pub fn upload_step(&self) -> (step: UploadStep)
        ensures
            step == match self.session {
                SessionState::Open => UploadStep::Send,
                SessionState::Uninit => UploadStep::Wait,
                _ => UploadStep::Stop,
            },
    {
        match self.session {
            SessionState::Open => UploadStep::Send,
            SessionState::Uninit => UploadStep::Wait,
            _ => UploadStep::Stop,
        }
    }

    /// Sending a chunk failed: the session is given up.
    pub fn on_upload_failed(&mut self)
        ensures
            final(self).session == SessionState::Error,
            final(self).current_demo == old(self).current_demo,
            final(self).previous_demos == old(self).previous_demos,
            final(self).header_parsed == old(self).header_parsed,
    {
        self.session = SessionState::Error;
    }

    /// The bytes written at the end were sent, whatever came of it: the
    /// session is closed.
    pub fn on_late_bytes_sent(&mut self)
        ensures
            final(self).session == SessionState::Closed,
            final(self).current_demo == old(self).current_demo,
            final(self).previous_demos == old(self).previous_demos,
            final(self).header_parsed == old(self).header_parsed,
    {
        self.session = SessionState::Closed;
    }
}


// Parsing a demo as it is recorded

#[verifier::external_type_specification]
#[verifier::external_body]
pub struct ExGameState(GameState);

#[verifier::external_type_specification]
#[verifier::external_body]
pub struct ExPacket<'a>(Packet<'a>);

#[verifier::external_type_specification]
#[verifier::external_body]
pub struct ExGameEvent(GameEvent);

/// The bytes the read buffer of a parser reads from.
pub uninterp spec fn parser_bytes(p: DemoParser) -> Seq<u8>;

/// What `tf_demo_parser` reads as the header at the start of `bytes`: the
/// server and the map it names, and the bit position after it; `None` where
/// `Header::read` fails there.
pub uninterp spec fn demo_header(bytes: Seq<u8>) -> Option<(Seq<char>, Seq<char>, nat)>;

/// What `tf_demo_parser` reads as the packet at bit `offset` of `bytes`, with
/// the parser state that the header and the packets before `offset` left:
/// its tick, one game event for each message it carries (`Other` for all but
/// vote events), the players the game state knew before it, and the bit
/// position after it. `None` where no whole packet is there yet, where it
/// cannot be read, or where handling it fails.
pub uninterp spec fn demo_packet(bytes: Seq<u8>, offset: nat) -> Option<(u32, Seq<DemoGameEvent>, Seq<Option<DemoPlayerInfo>>, nat)>;

/// The messages the packets from bit `offset` on make, packet after packet,
/// up to the first that is not there (or reads no further).
pub open spec fn packets_messages(bytes: Seq<u8>, offset: nat) -> Seq<DemoMessage>
    decreases bytes.len() * 8 - offset,
{
    match demo_packet(bytes, offset) {
        Some((tick, evs, players, next)) => if offset < next && next <= bytes.len() * 8 {
            spec_messages(tick, evs, players) + packets_messages(bytes, next)
        } else {
            Seq::empty()
        },
        None => Seq::empty(),
    }
}

/// The bit position after the packets `packets_messages` reads.
pub open spec fn packets_end(bytes: Seq<u8>, offset: nat) -> nat
    decreases bytes.len() * 8 - offset,
{
    match demo_packet(bytes, offset) {
        Some((tick, evs, players, next)) => if offset < next && next <= bytes.len() * 8 {
            packets_end(bytes, next)
        } else {
            offset
        },
        None => offset,
    }
}

/// The header of a demo: the server it was recorded on, and the map.
pub struct DemoHeader {
    pub server: String,
    pub map: String,
}

/// The state of `tf_demo_parser` for one demo: its handler, which keeps
/// what the header and the packets read so far set up, and a read buffer over
/// the bytes read so far.
#[verifier::external_body]
pub struct DemoParser {
    handler: DemoHandler<'static, GameStateAnalyser>,
    buffer: BitReadBuffer<'static, LittleEndian>,
}

/// A demo being recorded, parsed as its bytes come: its header first, then
/// packet after packet. `offset` is the bit position of the first packet not
/// read yet.
pub struct OpenDemo {
    file_path: String,
    id: usize,
    header: Option<DemoHeader>,
    parser: DemoParser,
    bytes: Vec<u8>,
    offset: usize,
    stopped: bool,
}

/// `DemoHandler::with_analyser` with a new `GameStateAnalyser`, and
/// `BitReadBuffer::new_owned` over no bytes.
#[verifier::external_body]
fn new_parser() -> (p: DemoParser)
    ensures
        parser_bytes(p) == Seq::<u8>::empty(),
{
    DemoParser { handler: DemoHandler::with_analyser(GameStateAnalyser::new()), buffer: BitReadBuffer::new_owned(Vec::new(), LittleEndian) }
}

/// Copies a vote event of `tf_demo_parser` into the library's form; any other
/// event is `Other`.
#[verifier::external_body]
fn game_event_of(event: &GameEvent) -> DemoGameEvent {
    match event {
        GameEvent::VoteStarted(e) => DemoGameEvent::VoteStarted(VoteStartedEvent {
            issue: e.issue.to_string(), param_1: e.param_1.to_string(), team: e.team, initiator: e.initiator, voteidx: e.voteidx }),
        GameEvent::VoteOptions(e) => DemoGameEvent::VoteOptions(VoteOptionsEvent {
            count: e.count, option_1: e.option_1.to_string(), option_2: e.option_2.to_string(), option_3: e.option_3.to_string(),
            option_4: e.option_4.to_string(), option_5: e.option_5.to_string(), voteidx: e.voteidx }),
        GameEvent::VoteCast(e) => DemoGameEvent::VoteCast(VoteCastEvent {
            vote_option: e.vote_option, team: e.team, entity_id: e.entity_id, voteidx: e.voteidx }),
        _ => DemoGameEvent::Other,
    }
}

/// The game event each message of a packet carries, in the library's form
/// (`Other` for a message that carries none); none for a packet that is not
/// a message packet.
#[verifier::external_body]
fn packet_events(packet: &Packet<'_>) -> Vec<DemoGameEvent> {
    match packet {
        Packet::Message(m) => m.messages.iter().map(|message| match message {
            tf_demo_parser::demo::message::Message::GameEvent(e) => game_event_of(&e.event),
            _ => DemoGameEvent::Other,
        }).collect(),
        _ => Vec::new(),
    }
}

/// The players a game state knows of, in the library's form.
#[verifier::external_body]
fn players_of(state: &GameState) -> Vec<Option<DemoPlayerInfo>> {
    state.players.iter().map(|p| p.info.as_ref().map(|i| DemoPlayerInfo {
        entity_id: u32::from(i.entity_id), steam_id: i.steam_id.clone() })).collect()
}

impl OpenDemo {
    #[verifier::type_invariant]
    spec fn parts_agree(self) -> bool {
        &&& parser_bytes(self.parser) == self.bytes@
        &&& self.header is None ==> self.offset == 0
        &&& self.offset <= self.bytes@.len() * 8
    }

    /// The file the demo is read from, and the recording's number.
    pub closed spec fn source(self) -> (Seq<char>, usize) {
        (self.file_path@, self.id)
    }

    /// The bytes of the demo read so far.
    pub closed spec fn bytes_read(self) -> Seq<u8> {
        self.bytes@
    }

    /// The bit position of the first packet not read yet.
    pub closed spec fn bit_offset(self) -> nat {
        self.offset as nat
    }

    /// The server and the map of the header, once it has been read.
    pub closed spec fn header_read(self) -> Option<(Seq<char>, Seq<char>)> {
        match self.header {
            Some(h) => Some((h.server@, h.map@)),
            None => None,
        }
    }

    /// Whether the parser failed on a packet, after which nothing more is read.
    pub closed spec fn is_stopped(self) -> bool {
        self.stopped
    }

    /// `Header::read` at the start of the bytes, then
    /// `DemoHandler::handle_header`; the header read is kept. The contract
    /// names what is read.
    #[verifier::external_body]
    fn read_header(&mut self)
        requires
            old(self).header is None,
        ensures
            final(self).bytes == old(self).bytes,
            parser_bytes(final(self).parser) == parser_bytes(old(self).parser),
            final(self).stopped == old(self).stopped,
            final(self).file_path == old(self).file_path,
            final(self).id == old(self).id,
            match final(self).header {
                Some(h) => demo_header(parser_bytes(old(self).parser)) == Some((h.server@, h.map@, final(self).offset as nat))
                    && final(self).offset <= parser_bytes(old(self).parser).len() * 8,
                None => demo_header(parser_bytes(old(self).parser)) is None && final(self).offset == old(self).offset,
            },
    {
        let mut stream = BitReadStream::new(self.parser.buffer.clone());
        let Ok(header) = Header::read(&mut stream) else { return };
        self.parser.handler.handle_header(&header);
        self.offset = stream.pos();
        self.header = Some(DemoHeader { server: header.server, map: header.map });
    }

    /// `RawPacketStream::next` at bit `offset`, the game state before the
    /// packet (`DemoHandler::borrow_output`), then `DemoHandler::handle_packet`.
    /// The contract names what is read; where handling fails, the parser is
    /// marked stopped, and a stopped parser is not asked again: its state no
    /// longer follows the bytes and the offset.
    #[verifier::external_body]
    fn next_packet(&mut self) -> (r: Option<(u32, Vec<DemoGameEvent>, Vec<Option<DemoPlayerInfo>>)>)
        requires
            !old(self).stopped,
        ensures
            final(self).bytes == old(self).bytes,
            parser_bytes(final(self).parser) == parser_bytes(old(self).parser),
            final(self).header == old(self).header,
            final(self).file_path == old(self).file_path,
            final(self).id == old(self).id,
            match r {
                Some((tick, evs, players)) => demo_packet(parser_bytes(old(self).parser), old(self).offset as nat)
                    == Some((tick, evs@, players@, final(self).offset as nat))
                    && old(self).offset < final(self).offset <= parser_bytes(old(self).parser).len() * 8
                    && final(self).stopped == old(self).stopped,
                None => demo_packet(parser_bytes(old(self).parser), old(self).offset as nat) is None
                    && final(self).offset == old(self).offset,
            },
    {
        let mut stream = BitReadStream::new(self.parser.buffer.clone());
        stream.set_pos(self.offset).ok()?;
        let mut packets = RawPacketStream::new(stream);
        let packet = packets.next(&self.parser.handler.state_handler).ok()??;
        let (tick, events) = (u32::from(packet.tick()), packet_events(&packet));
        let players = players_of(self.parser.handler.borrow_output());
        if self.parser.handler.handle_packet(packet).is_err() {
            self.stopped = true;
            return None;
        }
        self.offset = packets.pos();
        Some((tick, events, players))
    }

    /// Keeps `bytes` as the bytes read so far, with the parser's read buffer
    /// over them (`BitReadBuffer::new_owned`); the handler is kept.
    #[verifier::external_body]
    fn set_bytes(&mut self, bytes: Vec<u8>)
        ensures
            final(self).bytes == bytes,
            parser_bytes(final(self).parser) == bytes@,
            final(self).header == old(self).header,
            final(self).offset == old(self).offset,
            final(self).stopped == old(self).stopped,
            final(self).file_path == old(self).file_path,
            final(self).id == old(self).id,
    {
        self.parser.buffer = BitReadBuffer::new_owned(bytes.clone(), LittleEndian);
        self.bytes = bytes;
    }

    /// A demo with no bytes read yet.
    pub fn new(file_path: String, id: usize) -> (d: OpenDemo)
        ensures
            d.source() == (file_path@, id),
            d.bytes_read() == Seq::<u8>::empty(),
            d.bit_offset() == 0,
            d.header_read() is None,
            !d.is_stopped(),
    {
        OpenDemo { file_path, id, header: None, parser: new_parser(), bytes: Vec::new(), offset: 0, stopped: false }
    }

    /// The header, once it has been read.
    pub fn header(&self) -> (r: &Option<DemoHeader>)
        ensures
            match *r {
                Some(h) => self.header_read() == Some((h.server@, h.map@)),
                None => self.header_read() is None,
            },
    {
        &self.header
    }

    /// Adds `bytes` to the demo and reads what they complete (see
    /// `process_next_chunk`); no bytes read nothing.
    pub fn append_bytes(&mut self, bytes: &[u8]) -> (out: Vec<DemoMessage>)
        ensures
            bytes@.len() == 0 ==> out@ == Seq::<DemoMessage>::empty() && *final(self) == *old(self),
            bytes@.len() > 0 ==> final(self).bytes_read() == old(self).bytes_read() + bytes@
                && chunk_read(*old(self), *final(self), out@),
            final(self).source() == old(self).source(),
    {
        if bytes.len() == 0 {
            return Vec::new();
        }
        proof { use_type_invariant(&*self); }
        let mut all = self.bytes.clone();
        all.extend_from_slice(bytes);
        self.set_bytes(all);
        self.process_next_chunk()
    }

    /// Reads what the bytes so far complete: the header, if it has not been
    /// read, then packet after packet from `offset` on, and returns the vote
    /// messages they make (see `chunk_read`). Nothing is read once the parser
    /// has stopped.
    pub fn process_next_chunk(&mut self) -> (out: Vec<DemoMessage>)
        ensures
            final(self).bytes_read() == old(self).bytes_read(),
            chunk_read(*old(self), *final(self), out@),
            final(self).source() == old(self).source(),
    {
        proof { use_type_invariant(&*self); }
        let mut out: Vec<DemoMessage> = Vec::new();
        if self.stopped {
            return out;
        }
        if self.header.is_none() {
            self.read_header();
            if self.header.is_none() {
                return out;
            }
        }
        let ghost bytes = self.bytes@;
        let ghost start = self.offset as nat;
        let ghost path = self.file_path;
        let ghost id = self.id;
        let ghost header = self.header;
        loop
            invariant_except_break
                !self.stopped,
            invariant
                self.bytes@ == bytes,
                parser_bytes(self.parser) == bytes,
                self.offset <= bytes.len() * 8,
                self.header == header,
                self.file_path == path,
                self.id == id,
                out@ + packets_messages(bytes, self.offset as nat) == packets_messages(bytes, start),
                packets_end(bytes, self.offset as nat) == packets_end(bytes, start),
            ensures
                self.bytes@ == bytes,
                self.header == header,
                self.file_path == path,
                self.id == id,
                out@ == packets_messages(bytes, start),
                self.offset == packets_end(bytes, start),
            decreases bytes.len() * 8 - self.offset,
        {
            let ghost before = self.offset as nat;
            match self.next_packet() {
                Some((tick, evs, players)) => {
                    let mut msgs = messages_from_events(tick, evs, players.as_slice());
                    proof {
                        assert(packets_messages(bytes, before) == msgs@ + packets_messages(bytes, self.offset as nat));
                        assert(out@ + msgs@ + packets_messages(bytes, self.offset as nat) =~= out@ + (msgs@ + packets_messages(bytes, self.offset as nat)));
                    }
                    out.append(&mut msgs);
                },
                None => {
                    proof {
                        assert(out@ + packets_messages(bytes, before) =~= out@);
                    }
                    break;
                },
            }
        }
        out
    }
}

/// What reading a chunk does to a demo that was in state `o` and, with the
/// bytes now read, is in state `f`, returning `out`: a stopped parser reads
/// nothing; else the header is read if it was not (and nothing more where it
/// cannot be), then the packets from the offset on (see `packets_messages`).
pub open spec fn chunk_read(o: OpenDemo, f: OpenDemo, out: Seq<DemoMessage>) -> bool {
    let bytes = f.bytes_read();
    if o.is_stopped() {
        &&& out == Seq::<DemoMessage>::empty()
        &&& f.bit_offset() == o.bit_offset()
        &&& f.header_read() == o.header_read()
        &&& f.is_stopped()
    } else if o.header_read() is Some {
        &&& f.header_read() == o.header_read()
        &&& out == packets_messages(bytes, o.bit_offset())
        &&& f.bit_offset() == packets_end(bytes, o.bit_offset())
    } else {
        match demo_header(bytes) {
            Some((server, map, end)) => {
                &&& f.header_read() == Some((server, map))
                &&& out == packets_messages(bytes, end)
                &&& f.bit_offset() == packets_end(bytes, end)
            },
            None => {
                &&& out == Seq::<DemoMessage>::empty()
                &&& f.header_read() is None
                &&& f.bit_offset() == o.bit_offset()
                &&& !f.is_stopped()
            },
        }
    }
}

} // verus!

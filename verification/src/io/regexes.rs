//! Lines of the game's console output and the values they carry.
use crate::player::PlayerState;
use crate::steamid::{from_steam3, spec_from_steam3};
use crate::text::{
    chars_of, parse_u32, spec_decimal, spec_parse_u32, spec_split, split_char, u64_to_decimal,
};
use vstd::prelude::*;

verus! {

/// What `regex::Regex::new(pattern)` followed by `captures(text)` finds: for
/// each capture group, the text it matched if it took part, or `None` for
/// the whole where the pattern does not compile or does not match.
pub uninterp spec fn spec_captures(pattern: Seq<char>, text: Seq<char>) -> Option<
    Seq<Option<Seq<char>>>,
>;

/// `Regex::new(pattern)` and `Regex::captures(text)`. Group 0 is the whole
/// match. The contract names the result; it says nothing of regular
/// expressions.
#[verifier::external_body]
pub fn captures(pattern: &str, text: &str) -> (r: Option<Vec<Option<String>>>)
    ensures
        r.deep_view() == spec_captures(pattern@, text@),
{
    let re = regex::Regex::new(pattern).ok()?;
    let caps = re.captures(text)?;
    Some(caps.iter().map(|m| m.map(|m| m.as_str().to_string())).collect())
}

/// Whether capture group `i` took part in the match.
pub open spec fn has_group(caps: Seq<Option<Seq<char>>>, i: int) -> bool {
    0 <= i < caps.len() && caps[i] is Some
}

/// The text of capture group `i`.
pub open spec fn group(caps: Seq<Option<Seq<char>>>, i: int) -> Seq<char> {
    caps[i]->0
}

/// Whether groups `1..=n` all took part in the match.
pub open spec fn has_groups(caps: Seq<Option<Seq<char>>>, n: int) -> bool {
    forall|i: int| 1 <= i <= n ==> has_group(caps, i)
}

/// Whether groups `1..=n` all took part in the match.
pub fn groups_present(caps: &Vec<Option<String>>, n: usize) -> (b: bool)
    ensures
        b == has_groups(caps.deep_view(), n as int),
{
    let mut i: usize = 0;
    while i < n
        invariant
            i <= n,
            forall|j: int| 1 <= j <= i ==> has_group(caps.deep_view(), j),
        decreases n - i,
    {
        let k = i + 1;
        if k >= caps.len() || caps[k].is_none() {
            assert(!has_group(caps.deep_view(), k as int));
            return false;
        }
        i = k;
    }
    true
}

/// The text of capture group `i`, which must have taken part.
pub fn group_text(caps: &Vec<Option<String>>, i: usize) -> (s: String)
    requires
        has_group(caps.deep_view(), i as int),
    ensures
        s@ == group(caps.deep_view(), i as int),
{
    match &caps[i] {
        Some(s) => s.clone(),
        None => String::new(),
    }
}

/// A parsed `u32`, or 0 where the text is not one.
pub open spec fn u32_or_zero(s: Seq<char>) -> u32 {
    match spec_parse_u32(s) {
        Some(v) => v,
        None => 0,
    }
}

pub const REGEX_HOSTNAME: &'static str = r"^hostname: (.*)$";

/// The server's host name, from the `status` output.
#[derive(Debug, Clone)]
pub struct Hostname(pub String);

impl Hostname {
    /// The host name captured by [`REGEX_HOSTNAME`].
    pub fn parse(caps: &Vec<Option<String>>) -> (r: Self)
        requires
            has_groups(caps.deep_view(), 1),
        ensures
            r.0@ == group(caps.deep_view(), 1),
    {
        Hostname(group_text(caps, 1))
    }
}

pub const REGEX_IP: &'static str = r"^udp/ip  : (.*)$";

/// The server's address, from the `status` output.
#[derive(Debug, Clone)]
pub struct ServerIP(pub String);

impl ServerIP {
    /// The address captured by [`REGEX_IP`].
    pub fn parse(caps: &Vec<Option<String>>) -> (r: Self)
        requires
            has_groups(caps.deep_view(), 1),
        ensures
            r.0@ == group(caps.deep_view(), 1),
    {
        ServerIP(group_text(caps, 1))
    }
}

pub const REGEX_MAP: &'static str = r"^map     : (.+) at: .*$";

/// The current map, from the `status` output.
#[derive(Debug, Clone)]
pub struct MapName(pub String);

impl MapName {
    /// The map captured by [`REGEX_MAP`].
    pub fn parse(caps: &Vec<Option<String>>) -> (r: Self)
        requires
            has_groups(caps.deep_view(), 1),
        ensures
            r.0@ == group(caps.deep_view(), 1),
    {
        MapName(group_text(caps, 1))
    }
}

pub const REGEX_PLAYERCOUNT: &'static str = r"^players : (\d+) humans, (\d+) bots \((\d+) max\)$";

/// Player counts, from the `status` output.
#[derive(Debug, Clone, Copy)]
pub struct PlayerCount {
    pub players: u32,
    pub bots: u32,
    pub max: u32,
}

impl PlayerCount {
    /// The counts captured by [`REGEX_PLAYERCOUNT`]; a count that is not a
    /// valid `u32` reads as 0.
    pub fn parse(caps: &Vec<Option<String>>) -> (r: Self)
        requires
            has_groups(caps.deep_view(), 3),
        ensures
            r.players == u32_or_zero(group(caps.deep_view(), 1)),
            r.bots == u32_or_zero(group(caps.deep_view(), 2)),
            r.max == u32_or_zero(group(caps.deep_view(), 3)),
    {
        let players = parse_u32(group_text(caps, 1).as_str());
        let bots = parse_u32(group_text(caps, 2).as_str());
        let max = parse_u32(group_text(caps, 3).as_str());
        PlayerCount {
            players: match players {
                Some(v) => v,
                None => 0,
            },
            bots: match bots {
                Some(v) => v,
                None => 0,
            },
            max: match max {
                Some(v) => v,
                None => 0,
            },
        }
    }
}

/// A player killed someone. Groups: killer, victim, weapon, and whether it
/// was a critical hit.
pub const REGEX_KILL: &'static str = r"^(.*)\skilled\s(.*)\swith\s(.*)\.(\s\(crit\))?$";

/// A kill, as the console reports it.
#[derive(Debug, Clone)]
pub struct PlayerKill {
    pub killer_name: String,
    pub killer_steamid: Option<String>,
    pub victim_name: String,
    pub victim_steamid: Option<String>,
    pub weapon: String,
    pub crit: bool,
}

impl PlayerKill {
    /// The kill captured by [`REGEX_KILL`].
    pub fn parse(caps: &Vec<Option<String>>) -> (r: Self)
        requires
            has_groups(caps.deep_view(), 3),
        ensures
            r.killer_name@ == group(caps.deep_view(), 1),
            r.victim_name@ == group(caps.deep_view(), 2),
            r.weapon@ == group(caps.deep_view(), 3),
            r.killer_steamid is None,
            r.victim_steamid is None,
            r.crit == has_group(caps.deep_view(), 4),
    {
        let crit = caps.len() > 4 && caps[4].is_some();
        PlayerKill {
            killer_name: group_text(caps, 1),
            killer_steamid: None,
            victim_name: group_text(caps, 2),
            victim_steamid: None,
            weapon: group_text(caps, 3),
            crit,
        }
    }

    /// Records the SteamID of the killer, in decimal.
    pub fn set_steam_id_killer(&mut self, id: u64)
        ensures
            final(self).killer_steamid.deep_view() == Some(spec_decimal(id as nat)),
            final(self).killer_name == old(self).killer_name,
            final(self).victim_name == old(self).victim_name,
            final(self).victim_steamid == old(self).victim_steamid,
            final(self).weapon == old(self).weapon,
            final(self).crit == old(self).crit,
    {
        self.killer_steamid = Some(u64_to_decimal(id));
    }

    /// Records the SteamID of the victim, in decimal.
    pub fn set_steam_id_victim(&mut self, id: u64)
        ensures
            final(self).victim_steamid.deep_view() == Some(spec_decimal(id as nat)),
            final(self).killer_name == old(self).killer_name,
            final(self).victim_name == old(self).victim_name,
            final(self).killer_steamid == old(self).killer_steamid,
            final(self).weapon == old(self).weapon,
            final(self).crit == old(self).crit,
    {
        self.victim_steamid = Some(u64_to_decimal(id));
    }
}

/// A chat message. Groups: the player, and the message.
pub const REGEX_CHAT: &'static str = r"^(?:\*DEAD\*)?(?:\(TEAM\))?\s?(.*)\s:\s\s(.*)$";

/// A chat message, as the console reports it.
#[derive(Debug, Clone)]
pub struct ChatMessage {
    pub player_name: String,
    pub steamid: Option<String>,
    pub message: String,
}

impl ChatMessage {
    /// The message captured by [`REGEX_CHAT`].
    pub fn parse(caps: &Vec<Option<String>>) -> (r: Self)
        requires
            has_groups(caps.deep_view(), 2),
        ensures
            r.player_name@ == group(caps.deep_view(), 1),
            r.message@ == group(caps.deep_view(), 2),
            r.steamid is None,
    {
        ChatMessage { player_name: group_text(caps, 1), steamid: None, message: group_text(caps, 2) }
    }

    /// Records the SteamID of the sender, in decimal.
    pub fn set_steam_id(&mut self, id: u64)
        ensures
            final(self).steamid.deep_view() == Some(spec_decimal(id as nat)),
            final(self).player_name == old(self).player_name,
            final(self).message == old(self).message,
    {
        self.steamid = Some(u64_to_decimal(id));
    }
}

/// A line of the `status` output about one player. Groups: user id, name,
/// Steam3 id, connected time, ping, loss, state.
pub const REGEX_STATUS: &'static str =
    r#"^#\s*(\d+)\s"(.*)"\s+(\[U:\d:\d+\])\s+((?:[\ds]+:?)+)\s+(\d+)\s*(\d+)\s*(\w+).*$"#;

/// A player, as one line of the `status` output describes them.
#[derive(Debug, Clone)]
pub struct StatusLine {
    pub userid: String,
    pub name: String,
    pub steamid: u64,
    pub time: u32,
    pub ping: u32,
    pub loss: u32,
    pub state: PlayerState,
}

/// Why a status line could not be read.
#[derive(Debug, Clone, Copy, PartialEq, Eq, Structural)]
pub enum StatusLineError {
    /// The Steam3 id did not decode.
    InvalidSteamId,
}

/// The state a `status` line reports: `spawning`, or active otherwise.
pub open spec fn status_state(word: Seq<char>) -> PlayerState {
    if word == seq!['s', 'p', 'a', 'w', 'n', 'i', 'n', 'g'] {
        PlayerState::Spawning
    } else {
        PlayerState::Active
    }
}

/// Whether `s` is the word `spawning`.
fn is_spawning(s: &str) -> (b: bool)
    ensures
        b == (s@ == seq!['s', 'p', 'a', 'w', 'n', 'i', 'n', 'g']),
{
    let v = chars_of(s);
    let r = v.len() == 8 && v[0] == 's' && v[1] == 'p' && v[2] == 'a' && v[3] == 'w' && v[4] == 'n'
        && v[5] == 'i' && v[6] == 'n' && v[7] == 'g';
    if r {
        assert(v@ =~= seq!['s', 'p', 'a', 'w', 'n', 'i', 'n', 'g']);
    }
    r
}

impl StatusLine {
    /// The player captured by [`REGEX_STATUS`]. Fails where the Steam3 id
    /// does not decode; a time, ping or loss that does not read as a number
    /// is 0.
    pub fn parse(caps: &Vec<Option<String>>) -> (r: Result<Self, StatusLineError>)
        requires
            has_groups(caps.deep_view(), 7),
        ensures
            ({
                let c = caps.deep_view();
                match r {
                    Err(_) => spec_from_steam3(group(c, 3)) is None,
                    Ok(s) => {
                        &&& spec_from_steam3(group(c, 3)) == Some(s.steamid)
                        &&& s.userid@ == group(c, 1)
                        &&& s.name@ == group(c, 2)
                        &&& s.time == match spec_get_time(group(c, 4)) {
                            Some(t) => t,
                            None => 0,
                        }
                        &&& s.ping == u32_or_zero(group(c, 5))
                        &&& s.loss == u32_or_zero(group(c, 6))
                        &&& s.state == status_state(group(c, 7))
                    },
                }
            }),
    {
        let state = if is_spawning(group_text(caps, 7).as_str()) {
            PlayerState::Spawning
        } else {
            PlayerState::Active
        };
        let steamid = match from_steam3(group_text(caps, 3).as_str()) {
            Some(id) => id,
            None => {
                return Err(StatusLineError::InvalidSteamId);
            },
        };
        let time = match get_time(group_text(caps, 4).as_str()) {
            Some(t) => t,
            None => 0,
        };
        let ping = match parse_u32(group_text(caps, 5).as_str()) {
            Some(v) => v,
            None => 0,
        };
        let loss = match parse_u32(group_text(caps, 6).as_str()) {
            Some(v) => v,
            None => 0,
        };
        Ok(StatusLine {
            userid: group_text(caps, 1),
            name: group_text(caps, 2),
            steamid,
            time,
            ping,
            loss,
            state,
        })
    }
}

/// Printed when demo recording ends, e.g. `Completed demo, recording time
/// 1.8, game frames 115.` Groups: seconds, frames.
pub const REGEX_DEMOSTOP: &'static str = r"Completed demo, recording time ([\d.]+), game frames (\d+).";

/// The end of a demo recording. The recording time is kept as the decimal
/// text the console printed.
#[derive(Debug, Clone)]
pub struct DemoStop {
    pub seconds: String,
    pub frames: u32,
}

impl DemoStop {
    /// The recording captured by [`REGEX_DEMOSTOP`]; frames that do not
    /// read as a number are 0.
    pub fn parse(caps: &Vec<Option<String>>) -> (r: Self)
        requires
            has_groups(caps.deep_view(), 2),
        ensures
            r.seconds@ == group(caps.deep_view(), 1),
            r.frames == u32_or_zero(group(caps.deep_view(), 2)),
    {
        let frames = match parse_u32(group_text(caps, 2).as_str()) {
            Some(v) => v,
            None => 0,
        };
        DemoStop { seconds: group_text(caps, 1), frames }
    }
}

/// Mixed base-60 value of a list of numbers, most significant first.
pub open spec fn base60_value(ds: Seq<u32>) -> nat
    decreases ds.len(),
{
    if ds.len() == 0 {
        0
    } else {
        base60_value(ds.drop_last()) * 60 + ds.last() as nat
    }
}

/// The numbers of a `:`-separated time, if every piece is one.
pub open spec fn time_pieces(pieces: Seq<Seq<char>>) -> Option<Seq<u32>>
    decreases pieces.len(),
{
    if pieces.len() == 0 {
        Some(Seq::empty())
    } else {
        match (time_pieces(pieces.drop_last()), spec_parse_u32(pieces.last())) {
            (Some(ds), Some(d)) => Some(ds.push(d)),
            _ => None,
        }
    }
}

/// The number of seconds in a time such as `57:48` or `1:14:46`, the sum
/// wrapping at 2^32; `None` where a piece is not a number.
pub open spec fn spec_get_time(input: Seq<char>) -> Option<u32> {
    match time_pieces(spec_split(input, ':')) {
        Some(ds) => Some((base60_value(ds) % 0x1_0000_0000) as u32),
        None => None,
    }
}

proof fn lemma_wrap_step(a: nat, d: u32)
    ensures
        (((a % 0x1_0000_0000) * 60) % 0x1_0000_0000 + d) % 0x1_0000_0000 == (a * 60 + d)
            % 0x1_0000_0000,
{
    let m: int = 0x1_0000_0000;
    let ai: int = a as int;
    let am: int = ai % m;
    vstd::arithmetic::div_mod::lemma_mul_mod_noop_left(ai, 60, m);
    vstd::arithmetic::div_mod::lemma_add_mod_noop(ai * 60, d as int, m);
    vstd::arithmetic::div_mod::lemma_add_mod_noop(am * 60, d as int, m);
    vstd::arithmetic::div_mod::lemma_mod_twice(am * 60, m);
    vstd::arithmetic::div_mod::lemma_mod_twice(ai * 60, m);
}

proof fn lemma_time_pieces_step(ps: Seq<Seq<char>>, i: int, ds: Seq<u32>)
    requires
        0 <= i < ps.len(),
        time_pieces(ps.take(i)) == Some(ds),
    ensures
        time_pieces(ps.take(i + 1)) == match spec_parse_u32(ps[i]) {
            Some(d) => Some(ds.push(d)),
            None => None::<Seq<u32>>,
        },
{
    assert(ps.take(i + 1).drop_last() =~= ps.take(i));
    assert(ps.take(i + 1).last() == ps[i]);
}

proof fn lemma_base60_push(ds: Seq<u32>, d: u32)
    ensures
        base60_value(ds.push(d)) == base60_value(ds) * 60 + d,
{
    assert(ds.push(d).drop_last() =~= ds);
}

/// Converts a time such as `57:48` or `1:14:46` to a number of seconds.
pub fn get_time(input: &str) -> (r: Option<u32>)
    ensures
        r == spec_get_time(input@),
{
    let pieces = split_char(input, ':');
    let ghost ps = pieces.deep_view();
    let mut t: u32 = 0;
    let ghost mut ds: Seq<u32> = Seq::empty();
    let mut i: usize = 0;
    assert(ps.take(0) =~= Seq::<Seq<char>>::empty());
    while i < pieces.len()
        invariant
            ps == pieces.deep_view(),
            ps == spec_split(input@, ':'),
            i <= pieces.len(),
            time_pieces(ps.take(i as int)) == Some(ds),
            t == base60_value(ds) % 0x1_0000_0000,
        decreases pieces.len() - i,
    {
        proof {
            lemma_time_pieces_step(ps, i as int, ds);
        }
        assert(ps[i as int] == pieces[i as int]@);
        let d = match parse_u32(pieces[i].as_str()) {
            Some(d) => d,
            None => {
                proof {
                    lemma_time_pieces_none(ps, i + 1);
                }
                return None;
            },
        };
        proof {
            lemma_wrap_step(base60_value(ds), d);
            lemma_base60_push(ds, d);
        }
        t = t.wrapping_mul(60).wrapping_add(d);
        proof {
            ds = ds.push(d);
        }
        i = i + 1;
    }
    assert(ps.take(pieces.len() as int) =~= ps);
    Some(t)
}

proof fn lemma_time_pieces_none(ps: Seq<Seq<char>>, k: int)
    requires
        0 <= k <= ps.len(),
        time_pieces(ps.take(k)) is None,
    ensures
        time_pieces(ps) is None,
    decreases ps.len() - k,
{
    if k < ps.len() {
        assert(ps.take(k + 1).drop_last() =~= ps.take(k));
        lemma_time_pieces_none(ps, k + 1);
    } else {
        assert(ps.take(k) =~= ps);
    }
}

} // verus!

//! Reading the `g15_dumpplayer` console output: one line per field of the
//! scoreboard, indexed by player slot.
use crate::io::regexes::{captures, group, group_text, groups_present, has_groups, spec_captures};
use crate::player::Team;
use crate::steamid::{from_steam3, spec_from_steam3};
use crate::text::{
    parse_u32, parse_usize, push_str, spec_parse_u32, spec_parse_usize, spec_split, spec_trim,
    split_char, string_push, trim,
};
use vstd::prelude::*;

verus! {

/// `m_iAmmo[1] integer (32)`: slot, ammo count.
pub const REGEX_I_AMMO: &'static str = r"^m_iAmmo\[(\d+)\]\s+integer\s+\((\d+)\)$";
/// `m_szName[1] string (Lust)`: slot, name.
pub const REGEX_SZ_NAME: &'static str = r"^m_szName\[(\d+)\]\s+string\s+\((.+)\)$";
/// `m_iPing[2] integer (15)`: slot, ping in ms.
pub const REGEX_I_PING: &'static str = r"^m_iPing\[(\d+)\]\s+integer\s+\((\d+)\)$";
/// `m_iScore[4] integer (7)`: slot, score (kills).
pub const REGEX_I_SCORE: &'static str = r"^m_iScore\[(\d+)\]\s+integer\s+\((\d+)\)$";
/// `m_iDeaths[17] integer (4)`: slot, deaths.
pub const REGEX_I_DEATHS: &'static str = r"^m_iDeaths\[(\d+)\]\s+integer\s+\((\d+)\)$";
/// `m_bConnected[0] bool (false)`: slot, connected.
pub const REGEX_B_CONNECTED: &'static str = r"^m_bConnected\[(\d+)\]\s+bool\s+\((false|true)\)$";
/// `m_iTeam[18] integer (3)`: slot, team (0 unassigned, 1 spectator, 2 red,
/// 3 blu).
pub const REGEX_I_TEAM: &'static str = r"^m_iTeam\[(\d+)\]\s+integer\s+\(([0-3])\)$";
/// `m_bAlive[0] bool (false)`: slot, alive.
pub const REGEX_B_ALIVE: &'static str = r"^m_bAlive\[(\d+)\]\s+bool\s+\((false|true)\)$";
/// `m_iHealth[3] integer (125)`: slot, health.
pub const REGEX_I_HEALTH: &'static str = r"^m_iHealth\[(\d+)\]\s+integer\s+\((\d+)\)$";
/// `m_iAccountID[3] integer (1505713148)`: slot, account id of a Steam3 id
/// `[U:1:1505713148]`.
pub const REGEX_I_SID3: &'static str = r"^m_iAccountID\[(\d+)\]\s+integer\s+\((\d{4,})\)$";
/// `m_bValid[24] bool (true)`: slot, whether the slot holds a player.
pub const REGEX_B_VALID: &'static str = r"^m_bValid\[(\d+)\]\s+bool\s+\((false|true)\)$";
/// `m_iUserID[2] integer (68)`: slot, user id as `status` shows it.
pub const REGEX_I_USERID: &'static str = r"^m_iUserID\[(\d+)\]\s+integer\s+\((\d+)\)$";

/// Number of player slots read: the game's limit of 100 players, and two
/// more.
pub const G15_SLOTS: usize = 102;

/// The scoreboard field a line reports.
#[derive(Debug, Clone, Copy, PartialEq, Eq, Structural)]
pub enum G15Field {
    Ammo,
    Name,
    Ping,
    Score,
    Deaths,
    Connected,
    Team,
    Alive,
    Health,
    SteamID3,
    Valid,
    UserID,
}

/// The fields in the order their patterns are tried.
pub open spec fn field_order() -> Seq<G15Field> {
    seq![
        G15Field::Ammo,
        G15Field::Name,
        G15Field::Ping,
        G15Field::Score,
        G15Field::Deaths,
        G15Field::Connected,
        G15Field::Team,
        G15Field::Alive,
        G15Field::Health,
        G15Field::SteamID3,
        G15Field::Valid,
        G15Field::UserID,
    ]
}

fn field_at(k: usize) -> (f: G15Field)
    requires
        k < 12,
    ensures
        f == field_order()[k as int],
{
    match k {
        0 => G15Field::Ammo,
        1 => G15Field::Name,
        2 => G15Field::Ping,
        3 => G15Field::Score,
        4 => G15Field::Deaths,
        5 => G15Field::Connected,
        6 => G15Field::Team,
        7 => G15Field::Alive,
        8 => G15Field::Health,
        9 => G15Field::SteamID3,
        10 => G15Field::Valid,
        _ => G15Field::UserID,
    }
}

/// The pattern of a field.
pub open spec fn field_pattern(f: G15Field) -> Seq<char> {
    match f {
        G15Field::Ammo => REGEX_I_AMMO@,
        G15Field::Name => REGEX_SZ_NAME@,
        G15Field::Ping => REGEX_I_PING@,
        G15Field::Score => REGEX_I_SCORE@,
        G15Field::Deaths => REGEX_I_DEATHS@,
        G15Field::Connected => REGEX_B_CONNECTED@,
        G15Field::Team => REGEX_I_TEAM@,
        G15Field::Alive => REGEX_B_ALIVE@,
        G15Field::Health => REGEX_I_HEALTH@,
        G15Field::SteamID3 => REGEX_I_SID3@,
        G15Field::Valid => REGEX_B_VALID@,
        G15Field::UserID => REGEX_I_USERID@,
    }
}

fn pattern_of(f: G15Field) -> (p: &'static str)
    ensures
        p@ == field_pattern(f),
{
    match f {
        G15Field::Ammo => REGEX_I_AMMO,
        G15Field::Name => REGEX_SZ_NAME,
        G15Field::Ping => REGEX_I_PING,
        G15Field::Score => REGEX_I_SCORE,
        G15Field::Deaths => REGEX_I_DEATHS,
        G15Field::Connected => REGEX_B_CONNECTED,
        G15Field::Team => REGEX_I_TEAM,
        G15Field::Alive => REGEX_B_ALIVE,
        G15Field::Health => REGEX_I_HEALTH,
        G15Field::SteamID3 => REGEX_I_SID3,
        G15Field::Valid => REGEX_B_VALID,
        G15Field::UserID => REGEX_I_USERID,
    }
}

/// A field's value as read from a line.
#[derive(Debug)]
pub enum G15FieldValue {
    U32(u32),
    String(String),
    Bool(bool),
    Team(Option<Team>),
    SteamID(u64),
}

/// A field's value, with text as a sequence of characters.
pub enum G15ValueView {
    U32(u32),
    Str(Seq<char>),
    Bool(bool),
    Team(Option<Team>),
    SteamID(u64),
}

impl View for G15FieldValue {
    type V = G15ValueView;

    open spec fn view(&self) -> G15ValueView {
        match self {
            G15FieldValue::U32(v) => G15ValueView::U32(*v),
            G15FieldValue::String(s) => G15ValueView::Str(s@),
            G15FieldValue::Bool(b) => G15ValueView::Bool(*b),
            G15FieldValue::Team(t) => G15ValueView::Team(*t),
            G15FieldValue::SteamID(s) => G15ValueView::SteamID(*s),
        }
    }
}

/// An optional value, with text as sequences of characters.
pub open spec fn value_view(r: Option<G15FieldValue>) -> Option<G15ValueView> {
    match r {
        Some(v) => Some(v@),
        None => None,
    }
}

/// The team with the game's number, read from text.
pub open spec fn spec_team_of(s: Seq<char>) -> Option<Team> {
    match spec_parse_u32(s) {
        Some(0) => Some(Team::Unassigned),
        Some(1) => Some(Team::Spectators),
        Some(2) => Some(Team::Red),
        Some(3) => Some(Team::Blu),
        _ => None,
    }
}

/// The Steam3 id text for an account id: `[U:1:<account id>]`.
pub open spec fn steam3_text(account: Seq<char>) -> Seq<char> {
    seq!['[', 'U', ':', '1', ':'] + account + seq![']']
}

/// The value a field's captured text gives, if it reads as one.
pub open spec fn spec_field_value(f: G15Field, v: Seq<char>) -> Option<G15ValueView> {
    match f {
        G15Field::Ammo | G15Field::Score | G15Field::Ping | G15Field::Deaths | G15Field::Health => {
            match spec_parse_u32(v) {
                Some(n) => Some(G15ValueView::U32(n)),
                None => None,
            }
        },
        G15Field::Name | G15Field::UserID => Some(G15ValueView::Str(v)),
        G15Field::Connected | G15Field::Alive | G15Field::Valid => Some(
            G15ValueView::Bool(v == seq!['t', 'r', 'u', 'e']),
        ),
        G15Field::Team => Some(G15ValueView::Team(spec_team_of(v))),
        G15Field::SteamID3 => match spec_from_steam3(steam3_text(v)) {
            Some(id) => Some(G15ValueView::SteamID(id)),
            None => None,
        },
    }
}

fn is_true_text(s: &str) -> (b: bool)
    ensures
        b == (s@ == seq!['t', 'r', 'u', 'e']),
{
    let v = crate::text::chars_of(s);
    let r = v.len() == 4 && v[0] == 't' && v[1] == 'r' && v[2] == 'u' && v[3] == 'e';
    if r {
        assert(v@ =~= seq!['t', 'r', 'u', 'e']);
    }
    r
}

impl G15FieldValue {
    /// Reads the value of field `f` from its captured text.
    pub fn from_str(f: G15Field, v: &str) -> (r: Option<G15FieldValue>)
        ensures
            value_view(r) == spec_field_value(f, v@),
    {
        match f {
            G15Field::Ammo | G15Field::Score | G15Field::Ping | G15Field::Deaths
            | G15Field::Health => match parse_u32(v) {
                Some(n) => Some(G15FieldValue::U32(n)),
                None => None,
            },
            G15Field::Name | G15Field::UserID => Some(
                G15FieldValue::String(v.to_string()),
            ),
            G15Field::Connected | G15Field::Alive | G15Field::Valid => Some(
                G15FieldValue::Bool(is_true_text(v)),
            ),
            G15Field::Team => {
                let t = match parse_u32(v) {
                    Some(n) => Team::try_from_u32(n),
                    None => None,
                };
                Some(G15FieldValue::Team(t))
            },
            G15Field::SteamID3 => {
                let mut text = String::new();
                push_str(&mut text, "[U:1:");
                push_str(&mut text, v);
                string_push(&mut text, ']');
                proof {
                    reveal_strlit("[U:1:");
                }
                assert(text@ =~= steam3_text(v@));
                match from_steam3(text.as_str()) {
                    Some(id) => Some(G15FieldValue::SteamID(id)),
                    None => None,
                }
            },
        }
    }
}

/// One line's reading: a field, a slot and a value.
pub struct G15Extraction {
    pub field_type: G15Field,
    pub slot_idx: usize,
    pub value: G15FieldValue,
}

/// A line's reading, with text as a sequence of characters.
pub struct G15ExtractionView {
    pub field_type: G15Field,
    pub slot_idx: usize,
    pub value: G15ValueView,
}

impl View for G15Extraction {
    type V = G15ExtractionView;

    open spec fn view(&self) -> G15ExtractionView {
        G15ExtractionView { field_type: self.field_type, slot_idx: self.slot_idx, value: self.value@ }
    }
}

/// An optional reading, with text as sequences of characters.
pub open spec fn extraction_view(r: Option<G15Extraction>) -> Option<G15ExtractionView> {
    match r {
        Some(v) => Some(v@),
        None => None,
    }
}

/// The reading of a (trimmed) line by the pattern of field `f`: the line
/// matches, its value reads, and its slot is a number.
pub open spec fn spec_extract_with(f: G15Field, line: Seq<char>) -> Option<G15ExtractionView> {
    match spec_captures(field_pattern(f), line) {
        Some(c) => if has_groups(c, 2) {
            match (spec_field_value(f, group(c, 2)), spec_parse_usize(group(c, 1))) {
                (Some(v), Some(i)) => Some(G15ExtractionView { field_type: f, slot_idx: i, value: v }),
                _ => None,
            }
        } else {
            None
        },
        None => None,
    }
}

/// The reading by the first field, from the `k`th on, that reads the line.
pub open spec fn spec_extract_from(k: int, line: Seq<char>) -> Option<G15ExtractionView>
    decreases 12 - k,
{
    if k >= 12 || k < 0 {
        None
    } else {
        match spec_extract_with(field_order()[k], line) {
            Some(e) => Some(e),
            None => spec_extract_from(k + 1, line),
        }
    }
}

/// The reading of a line of `g15_dumpplayer` output: the first field whose
/// pattern matches the trimmed line and whose value and slot read.
pub open spec fn spec_extract(line: Seq<char>) -> Option<G15ExtractionView> {
    spec_extract_from(0, spec_trim(line))
}

fn extract_with(f: G15Field, line: &str) -> (r: Option<G15Extraction>)
    ensures
        extraction_view(r) == spec_extract_with(f, line@),
{
    let caps = match captures(pattern_of(f), line) {
        Some(c) => c,
        None => {
            return None;
        },
    };
    if !groups_present(&caps, 2) {
        return None;
    }
    let value = G15FieldValue::from_str(f, group_text(&caps, 2).as_str());
    let slot = parse_usize(group_text(&caps, 1).as_str());
    match (value, slot) {
        (Some(v), Some(i)) => Some(G15Extraction { field_type: f, slot_idx: i, value: v }),
        _ => None,
    }
}

impl G15Extraction {
    /// Reads one line of `g15_dumpplayer` output.
    pub fn from_string(g15_line: &str) -> (r: Option<G15Extraction>)
        ensures
            extraction_view(r) == spec_extract(g15_line@),
    {
        let line = trim(g15_line);
        let mut k: usize = 0;
        while k < 12
            invariant
                k <= 12,
                line@ == spec_trim(g15_line@),
                spec_extract_from(0, line@) == spec_extract_from(k as int, line@),
            decreases 12 - k,
        {
            let f = field_at(k);
            let r = extract_with(f, line.as_str());
            assert(spec_extract_from(k as int, line@) == match spec_extract_with(
                field_order()[k as int],
                line@,
            ) {
                Some(e) => Some(e),
                None => spec_extract_from(k + 1, line@),
            });
            if r.is_some() {
                assert(spec_extract_with(f, line@) is Some);
                assert(spec_extract_from(k as int, line@) == extraction_view(r));
                assert(spec_trim(g15_line@) == line@);
                return r;
            }
            k = k + 1;
        }
        None
    }
}

/// What is known of the player in one slot. Any field may be missing where
/// its line did not read.
#[derive(Debug)]
pub struct G15Player {
    pub name: Option<String>,
    pub ping: Option<u32>,
    pub score: Option<u32>,
    pub deaths: Option<u32>,
    pub steamid: Option<u64>,
    pub team: Option<Team>,
    pub health: Option<u32>,
    pub ammo: Option<u32>,
    pub connected: Option<bool>,
    pub valid: Option<bool>,
    pub alive: Option<bool>,
    pub userid: Option<String>,
}

/// A slot's player, with text as sequences of characters.
pub struct G15PlayerView {
    pub name: Option<Seq<char>>,
    pub ping: Option<u32>,
    pub score: Option<u32>,
    pub deaths: Option<u32>,
    pub steamid: Option<u64>,
    pub team: Option<Team>,
    pub health: Option<u32>,
    pub ammo: Option<u32>,
    pub connected: Option<bool>,
    pub valid: Option<bool>,
    pub alive: Option<bool>,
    pub userid: Option<Seq<char>>,
}

impl View for G15Player {
    type V = G15PlayerView;

    open spec fn view(&self) -> G15PlayerView {
        G15PlayerView {
            name: self.name.deep_view(),
            ping: self.ping,
            score: self.score,
            deaths: self.deaths,
            steamid: self.steamid,
            team: self.team,
            health: self.health,
            ammo: self.ammo,
            connected: self.connected,
            valid: self.valid,
            alive: self.alive,
            userid: self.userid.deep_view(),
        }
    }
}

/// A slot with nothing known.
pub open spec fn empty_player() -> G15PlayerView {
    G15PlayerView {
        name: None,
        ping: None,
        score: None,
        deaths: None,
        steamid: None,
        team: None,
        health: None,
        ammo: None,
        connected: None,
        valid: None,
        alive: None,
        userid: None,
    }
}

/// A slot's player after one reading: the reading's field is set where the
/// value is of that field's kind; a team reading sets the team, known or
/// not.
pub open spec fn spec_apply(p: G15PlayerView, f: G15Field, v: G15ValueView) -> G15PlayerView {
    match (f, v) {
        (G15Field::Ammo, G15ValueView::U32(x)) => G15PlayerView { ammo: Some(x), ..p },
        (G15Field::Name, G15ValueView::Str(x)) => G15PlayerView { name: Some(x), ..p },
        (G15Field::Ping, G15ValueView::U32(x)) => G15PlayerView { ping: Some(x), ..p },
        (G15Field::Score, G15ValueView::U32(x)) => G15PlayerView { score: Some(x), ..p },
        (G15Field::Deaths, G15ValueView::U32(x)) => G15PlayerView { deaths: Some(x), ..p },
        (G15Field::Connected, G15ValueView::Bool(x)) => G15PlayerView { connected: Some(x), ..p },
        (G15Field::Team, G15ValueView::Team(x)) => G15PlayerView { team: x, ..p },
        (G15Field::Alive, G15ValueView::Bool(x)) => G15PlayerView { alive: Some(x), ..p },
        (G15Field::Health, G15ValueView::U32(x)) => G15PlayerView { health: Some(x), ..p },
        (G15Field::SteamID3, G15ValueView::SteamID(x)) => G15PlayerView { steamid: Some(x), ..p },
        (G15Field::Valid, G15ValueView::Bool(x)) => G15PlayerView { valid: Some(x), ..p },
        (G15Field::UserID, G15ValueView::Str(x)) => G15PlayerView { userid: Some(x), ..p },
        _ => p,
    }
}

impl G15Player {
    /// A slot with nothing known.
    pub fn new() -> (r: Self)
        ensures
            r@ == empty_player(),
    {
        G15Player {
            name: None,
            ping: None,
            score: None,
            deaths: None,
            steamid: None,
            team: None,
            health: None,
            ammo: None,
            alive: None,
            connected: None,
            userid: None,
            valid: None,
        }
    }

    /// Records one reading.
    pub fn apply_from_field_type(&mut self, field_type: G15Field, field_value: G15FieldValue)
        ensures
            final(self)@ == spec_apply(old(self)@, field_type, field_value@),
    {
        match field_type {
            G15Field::Ammo => {
                if let G15FieldValue::U32(val) = field_value {
                    self.ammo = Some(val);
                }
            },
            G15Field::Name => {
                if let G15FieldValue::String(val) = field_value {
                    self.name = Some(val);
                }
            },
            G15Field::Ping => {
                if let G15FieldValue::U32(val) = field_value {
                    self.ping = Some(val);
                }
            },
            G15Field::Score => {
                if let G15FieldValue::U32(val) = field_value {
                    self.score = Some(val);
                }
            },
            G15Field::Deaths => {
                if let G15FieldValue::U32(val) = field_value {
                    self.deaths = Some(val);
                }
            },
            G15Field::Connected => {
                if let G15FieldValue::Bool(val) = field_value {
                    self.connected = Some(val);
                }
            },
            G15Field::Team => {
                if let G15FieldValue::Team(val) = field_value {
                    self.team = val;
                }
            },
            G15Field::Alive => {
                if let G15FieldValue::Bool(val) = field_value {
                    self.alive = Some(val);
                }
            },
            G15Field::Health => {
                if let G15FieldValue::U32(val) = field_value {
                    self.health = Some(val);
                }
            },
            G15Field::SteamID3 => {
                if let G15FieldValue::SteamID(val) = field_value {
                    self.steamid = Some(val);
                }
            },
            G15Field::Valid => {
                if let G15FieldValue::Bool(val) = field_value {
                    self.valid = Some(val);
                }
            },
            G15Field::UserID => {
                if let G15FieldValue::String(val) = field_value {
                    self.userid = Some(val);
                }
            },
        }
    }
}

/// Whether every line that reads names a slot below [`G15_SLOTS`].
pub open spec fn slots_in_range(lines: Seq<Seq<char>>) -> bool {
    forall|i: int|
        0 <= i < lines.len() ==> (#[trigger] spec_extract(lines[i]) matches Some(e) ==> e.slot_idx
            < G15_SLOTS)
}

/// The slots after the readings of `lines`, in order.
pub open spec fn spec_apply_lines(lines: Seq<Seq<char>>) -> Seq<G15PlayerView>
    decreases lines.len(),
{
    if lines.len() == 0 {
        Seq::new(G15_SLOTS as nat, |i: int| empty_player())
    } else {
        let p = spec_apply_lines(lines.drop_last());
        match spec_extract(lines.last()) {
            Some(e) => if e.slot_idx < p.len() {
                p.update(e.slot_idx as int, spec_apply(p[e.slot_idx as int], e.field_type, e.value))
            } else {
                p
            },
            None => p,
        }
    }
}

/// Whether a slot holds a player worth reporting: marked valid, with a user
/// id other than `0`.
pub open spec fn is_reported(p: G15PlayerView) -> bool {
    p.valid == Some(true) && p.userid is Some && p.userid->0 != seq!['0']
}

/// The players that the `g15_dumpplayer` output `log` reports, in slot
/// order.
pub open spec fn spec_parse_g15(log: Seq<char>) -> Seq<G15PlayerView> {
    spec_apply_lines(spec_split(log, '\n')).filter(|p: G15PlayerView| is_reported(p))
}

proof fn lemma_apply_lines_len(lines: Seq<Seq<char>>)
    ensures
        spec_apply_lines(lines).len() == G15_SLOTS,
    decreases lines.len(),
{
    if lines.len() > 0 {
        lemma_apply_lines_len(lines.drop_last());
    }
}

fn is_zero_text(s: &String) -> (b: bool)
    ensures
        b == (s@ == seq!['0']),
{
    let v = crate::text::chars_of(s.as_str());
    let r = v.len() == 1 && v[0] == '0';
    if r {
        assert(v@ =~= seq!['0']);
    }
    r
}

/// Whether every line of `log` that reads names a slot below
/// [`G15_SLOTS`].
pub fn g15_slots_in_range(log: &str) -> (b: bool)
    ensures
        b == slots_in_range(spec_split(log@, '\n')),
{
    let lines = split_char(log, '\n');
    let ghost ls = lines.deep_view();
    let mut i: usize = 0;
    while i < lines.len()
        invariant
            ls == lines.deep_view(),
            ls == spec_split(log@, '\n'),
            i <= lines.len(),
            forall|j: int|
                0 <= j < i ==> (#[trigger] spec_extract(ls[j]) matches Some(e) ==> e.slot_idx
                    < G15_SLOTS),
        decreases lines.len() - i,
    {
        assert(ls[i as int] == lines[i as int]@);
        let e = G15Extraction::from_string(lines[i].as_str());
        match e {
            Some(x) => {
                if x.slot_idx >= G15_SLOTS {
                    assert(!(spec_extract(ls[i as int]) matches Some(e) ==> e.slot_idx < G15_SLOTS));
                    return false;
                }
            },
            None => {},
        }
        i = i + 1;
    }
    true
}

/// Reads `g15_dumpplayer` output.
pub struct Parser;

impl Parser {
    /// The players that `g15_log` reports: each line is read, its value
    /// recorded in its slot, and the slots marked valid with a user id other
    /// than `0` are returned in slot order.
    pub fn parse_g15(g15_log: &str) -> (players: Vec<G15Player>)
        requires
            slots_in_range(spec_split(g15_log@, '\n')),
        ensures
            players@.map_values(|p: G15Player| p@) == spec_parse_g15(g15_log@),
    {
        let mut players: Vec<G15Player> = Vec::new();
        let mut k: usize = 0;
        while k < G15_SLOTS
            invariant
                k <= G15_SLOTS,
                players@.map_values(|p: G15Player| p@) =~= Seq::new(k as nat, |i: int| empty_player()),
            decreases G15_SLOTS - k,
        {
            let ghost before = players@.map_values(|p: G15Player| p@);
            players.push(G15Player::new());
            assert(players@.map_values(|p: G15Player| p@) =~= before.push(empty_player()));
            k = k + 1;
        }
        let lines = split_char(g15_log, '\n');
        let ghost ls = lines.deep_view();
        let mut i: usize = 0;
        assert(ls.take(0) =~= Seq::<Seq<char>>::empty());
        while i < lines.len()
            invariant
                ls == lines.deep_view(),
                ls == spec_split(g15_log@, '\n'),
                slots_in_range(ls),
                i <= lines.len(),
                players@.map_values(|p: G15Player| p@) == spec_apply_lines(ls.take(i as int)),
                players.len() == G15_SLOTS,
            decreases lines.len() - i,
        {
            assert(ls.take(i + 1).drop_last() =~= ls.take(i as int));
            assert(ls.take(i + 1).last() == ls[i as int]);
            assert(ls[i as int] == lines[i as int]@);
            let e = G15Extraction::from_string(lines[i].as_str());
            match e {
                Some(x) => {
                    assert(spec_extract(ls[i as int]) matches Some(e) ==> e.slot_idx < G15_SLOTS);
                    let slot = x.slot_idx;
                    let ghost before = players@.map_values(|p: G15Player| p@);
                    let mut p = players.remove(slot);
                    p.apply_from_field_type(x.field_type, x.value);
                    players.insert(slot, p);
                    assert(players@.map_values(|p: G15Player| p@) =~= before.update(
                        slot as int,
                        spec_apply(before[slot as int], x.field_type, x.value@),
                    ));
                },
                None => {},
            }
            i = i + 1;
        }
        assert(ls.take(lines.len() as int) =~= ls);
        let ghost all = players@.map_values(|p: G15Player| p@);
        let mut out: Vec<G15Player> = Vec::new();
        let mut j: usize = 0;
        let total = players.len();
        let mut rest = players;
        reveal_with_fuel(Seq::filter, 1);
        assert(all.take(0).filter(|p: G15PlayerView| is_reported(p)) =~= Seq::<G15PlayerView>::empty());
        while j < total
            invariant
                j <= total,
                total == all.len(),
                rest@.map_values(|p: G15Player| p@) == all.skip(j as int),
                rest.len() == total - j,
                out@.map_values(|p: G15Player| p@) == all.take(j as int).filter(
                    |p: G15PlayerView| is_reported(p),
                ),
            decreases total - j,
        {
            reveal_with_fuel(Seq::filter, 1);
            let ghost before_rest = rest@.map_values(|p: G15Player| p@);
            let ghost old_rest = rest@;
            let p = rest.remove(0);
            assert(rest@ =~= old_rest.subrange(1, old_rest.len() as int));
            assert(p@ == before_rest[0]);
            assert(before_rest[0] == all[j as int]);
            assert(rest@.map_values(|p: G15Player| p@) =~= before_rest.subrange(
                1,
                before_rest.len() as int,
            ));
            assert(before_rest.subrange(1, before_rest.len() as int) =~= all.skip(j + 1));
            assert(all.take(j + 1).drop_last() =~= all.take(j as int));
            assert(all.take(j + 1).last() == all[j as int]);
            let keep = match &p.valid {
                Some(v) => *v,
                None => false,
            } && match &p.userid {
                Some(u) => !is_zero_text(u),
                None => false,
            };
            let ghost before_out = out@.map_values(|p: G15Player| p@);
            if keep {
                out.push(p);
                assert(out@.map_values(|p: G15Player| p@) =~= before_out.push(all[j as int]));
            }
            j = j + 1;
        }
        assert(all.take(total as int) =~= all);
        out
    }
}

} // verus!

//! Commands sent to the game over RCON, and the decisions around sending
//! them: which command a refresh runs, whether to reconnect, what an error
//! is reported as, and which bots to kick.
use vstd::prelude::*;

use crate::parties::contains_id;
use crate::player::{PlayerState, Players, Team};
use crate::player_records::Verdict;
use crate::steamid::{spec_steam2, spec_steam3, steam2_of, steam3_of};
use crate::text::{
    contains_pair_sep, contains_double_colon, parse_u64, push_str, spec_decimal, spec_parse_u64,
    spec_split_pair_sep, spec_starts_with, split_double_colon, starts_with, u64_to_decimal,
};

verus! {

broadcast use vstd::std_specs::hash::group_hash_axioms;

/// Why a player is called to be kicked.
#[derive(Debug, Clone, Copy, PartialEq, Eq, Structural)]
pub enum KickReason {
    Other,
    Idle,
    Cheating,
    Scamming,
}

/// The word the game's vote menu shows for a kick reason.
pub open spec fn kick_reason_text(r: KickReason) -> Seq<char> {
    match r {
        KickReason::Other => "other"@,
        KickReason::Idle => "idle"@,
        KickReason::Cheating => "cheating"@,
        KickReason::Scamming => "scamming"@,
    }
}

impl KickReason {
    /// The reason a kick has where none is given.
    pub fn default() -> (r: KickReason)
        ensures
            r == KickReason::Other,
    {
        KickReason::Other
    }

    /// The word for this reason (see `kick_reason_text`).
    pub fn to_string(&self) -> (s: String)
        ensures
            s@ == kick_reason_text(*self),
    {
        match self {
            KickReason::Other => "other".to_string(),
            KickReason::Idle => "idle".to_string(),
            KickReason::Cheating => "cheating".to_string(),
            KickReason::Scamming => "scamming".to_string(),
        }
    }
}

/// A command for the game console.
#[derive(Debug, Clone)]
pub enum Command {
    G15,
    Status,
    Say(String),
    SayTeam(String),
    /// Call a vote to kick the player with this userid.
    Kick { player: String, reason: KickReason },
    /// Any console command, with its arguments. An argument
    /// `<SteamID64>::to_sid3`, `::to_sid2` or `::to_sid2_sm` is replaced by
    /// that player's Steam3 id, Steam2 id, or Steam2 id as a SourceMod
    /// target (`"#STEAM_..."`).
    Custom { command: String, args: Vec<String> },
}

/// Why a custom argument or command could not be read.
#[derive(Debug, Clone, Copy, PartialEq, Eq, Structural)]
pub enum CommandError {
    /// The command is not a custom one.
    NotCustom,
    /// The argument holds no `::` and so names no format to translate to.
    NoFormat,
    /// The text before `::` is not a 64-bit number.
    NotASteamId,
    /// `steamid_ng` refuses the number as a SteamID.
    InvalidSteamId,
}

/// What a SteamID argument `<id>::<format>` becomes (see `Command::Custom`);
/// any other format gives the id's decimal digits. Text without `::` names
/// no format and is refused.
pub open spec fn spec_steam_id_argument(s: Seq<char>) -> Result<Seq<char>, CommandError> {
    if !contains_pair_sep(s) {
        Err(CommandError::NoFormat)
    } else {
        spec_steam_id_format(s)
    }
}

/// What `<id>::<format>` becomes, the text being split at its `::`s.
pub open spec fn spec_steam_id_format(s: Seq<char>) -> Result<Seq<char>, CommandError> {
    let parts = spec_split_pair_sep(s);
    let format = parts.last();
    match spec_parse_u64(parts[0]) {
        None => Err(CommandError::NotASteamId),
        Some(id) => if format == "to_sid2"@ {
            match spec_steam2(id) {
                Some(t) => Ok(t),
                None => Err(CommandError::InvalidSteamId),
            }
        } else if format == "to_sid3"@ {
            match spec_steam3(id) {
                Some(t) => Ok(t),
                None => Err(CommandError::InvalidSteamId),
            }
        } else if format == "to_sid2_sm"@ {
            match spec_steam2(id) {
                Some(t) => Ok("\"#"@ + t + "\""@),
                None => Err(CommandError::InvalidSteamId),
            }
        } else {
            Ok(spec_decimal(id as nat))
        },
    }
}

/// What a custom argument becomes: one that starts with `765611` and holds
/// `::` is read as a SteamID argument where it can be, and kept as it is
/// otherwise.
pub open spec fn spec_custom_arg(a: Seq<char>) -> Seq<char> {
    if spec_starts_with(a, "765611"@) && contains_pair_sep(a) {
        match spec_steam_id_argument(a) {
            Ok(t) => t,
            Err(_) => a,
        }
    } else {
        a
    }
}

/// Joins words with single spaces.
pub open spec fn join_spaces(words: Seq<Seq<char>>) -> Seq<char>
    decreases words.len(),
{
    if words.len() == 0 {
        Seq::empty()
    } else if words.len() == 1 {
        words[0]
    } else {
        join_spaces(words.drop_last()) + " "@ + words.last()
    }
}

/// The console text of a command.
pub open spec fn command_text(c: Command) -> Seq<char> {
    match c {
        Command::G15 => "g15_dumpplayer"@,
        Command::Status => "status"@,
        Command::Kick { player, reason } => "callvote kick \""@ + player@ + " "@ + kick_reason_text(
            reason,
        ) + "\""@,
        Command::Say(m) => "say \""@ + m@ + "\""@,
        Command::SayTeam(m) => "say_team \""@ + m@ + "\""@,
        Command::Custom { command, args } => join_spaces(
            seq![command@] + args@.map_values(|a: String| spec_custom_arg(a@)),
        ),
    }
}

impl Command {
    /// Whether this is a custom command.
    pub fn is_custom_command(&self) -> (b: bool)
        ensures
            b == (*self is Custom),
    {
        match self {
            Command::Custom { .. } => true,
            _ => false,
        }
    }

    /// Reads a SteamID argument `<id>::<format>` (see
    /// `spec_steam_id_argument`).
    pub fn parse_steam_id_argument(steamid_str: &str) -> (r: Result<String, CommandError>)
        ensures
            match (r, spec_steam_id_argument(steamid_str@)) {
                (Ok(t), Ok(u)) => t@ == u,
                (Err(e), Err(f)) => e == f,
                _ => false,
            },
    {
        if !contains_double_colon(steamid_str) {
            return Err(CommandError::NoFormat);
        }
        let parts = split_double_colon(steamid_str);
        let ghost pv = parts.deep_view();
        let last = parts.len() - 1;
        proof {
            assert(pv[last as int] == parts@[last as int]@);
            assert(pv[0] == parts@[0]@);
        }
        let id = match parse_u64(parts[0].as_str()) {
            Some(id) => id,
            None => {
                return Err(CommandError::NotASteamId);
            },
        };
        let format = parts[last].as_str();
        if string_is(format, "to_sid2") {
            match steam2_of(id) {
                Some(t) => Ok(t),
                None => Err(CommandError::InvalidSteamId),
            }
        } else if string_is(format, "to_sid3") {
            match steam3_of(id) {
                Some(t) => Ok(t),
                None => Err(CommandError::InvalidSteamId),
            }
        } else if string_is(format, "to_sid2_sm") {
            match steam2_of(id) {
                Some(t) => {
                    let mut out = "\"#".to_string();
                    push_str(&mut out, t.as_str());
                    push_str(&mut out, "\"");
                    Ok(out)
                },
                None => Err(CommandError::InvalidSteamId),
            }
        } else {
            Ok(u64_to_decimal(id))
        }
    }

    /// The words of a custom command: the command, then each argument as
    /// `spec_custom_arg` makes it. Fails for any other command.
    pub fn parse_custom_args(&self) -> (r: Result<Vec<String>, CommandError>)
        ensures
            match *self {
                Command::Custom { command, args } => r matches Ok(words) && words.deep_view() == seq![
                    command@,
                ] + args@.map_values(|a: String| spec_custom_arg(a@)),
                _ => r == Err::<Vec<String>, CommandError>(CommandError::NotCustom),
            },
    {
        match self {
            Command::Custom { command, args } => {
                let mut parts: Vec<String> = Vec::new();
                parts.push(command.clone());
                let mut i: usize = 0;
                while i < args.len()
                    invariant
                        i <= args@.len(),
                        parts.deep_view() == seq![command@] + args@.take(i as int).map_values(
                            |a: String| spec_custom_arg(a@),
                        ),
                    decreases args.len() - i,
                {
                    let a = &args[i];
                    let word = if starts_with(a.as_str(), "765611") && contains_double_colon(a.as_str()) {
                        match Command::parse_steam_id_argument(a.as_str()) {
                            Ok(t) => t,
                            Err(_) => a.clone(),
                        }
                    } else {
                        a.clone()
                    };
                    assert(word@ == spec_custom_arg(a@));
                    let ghost before = parts.deep_view();
                    parts.push(word);
                    proof {
                        assert(parts.deep_view() =~= before.push(word@));
                        assert(args@.take(i + 1) =~= args@.take(i as int).push(args@[i as int]));
                    }
                    i = i + 1;
                    proof {
                        assert(parts.deep_view() =~= seq![command@] + args@.take(i as int).map_values(
                            |a: String| spec_custom_arg(a@),
                        ));
                    }
                }
                proof {
                    assert(args@.take(args@.len() as int) =~= args@);
                }
                Ok(parts)
            },
            _ => Err(CommandError::NotCustom),
        }
    }

    /// The console text of the command (see `command_text`).
    pub fn to_string(&self) -> (s: String)
        ensures
            s@ == command_text(*self),
    {
        match self {
            Command::G15 => "g15_dumpplayer".to_string(),
            Command::Status => "status".to_string(),
            Command::Kick { player, reason } => {
                let mut s = "callvote kick \"".to_string();
                push_str(&mut s, player.as_str());
                push_str(&mut s, " ");
                let r = reason.to_string();
                push_str(&mut s, r.as_str());
                push_str(&mut s, "\"");
                s
            },
            Command::Say(m) => {
                let mut s = "say \"".to_string();
                push_str(&mut s, m.as_str());
                push_str(&mut s, "\"");
                s
            },
            Command::SayTeam(m) => {
                let mut s = "say_team \"".to_string();
                push_str(&mut s, m.as_str());
                push_str(&mut s, "\"");
                s
            },
            Command::Custom { .. } => {
                let words = match self.parse_custom_args() {
                    Ok(w) => w,
                    Err(_) => Vec::new(),
                };
                join_words(&words)
            },
        }
    }
}

/// Whether `a` holds the text of `b`.
fn string_is(a: &str, b: &str) -> (r: bool)
    ensures
        r == (a@ == b@),
{
    let x = a.to_string();
    let y = b.to_string();
    x == y
}

/// The words joined with single spaces.
fn join_words(words: &Vec<String>) -> (s: String)
    ensures
        s@ == join_spaces(words.deep_view()),
{
    let mut s = String::new();
    let mut i: usize = 0;
    while i < words.len()
        invariant
            i <= words@.len(),
            s@ == join_spaces(words.deep_view().take(i as int)),
        decreases words.len() - i,
    {
        let ghost before = words.deep_view().take(i as int);
        proof {
            assert(words.deep_view().take(i + 1).drop_last() =~= before);
        }
        if i > 0 {
            push_str(&mut s, " ");
        }
        push_str(&mut s, words[i].as_str());
        i = i + 1;
    }
    proof {
        assert(words.deep_view().take(words@.len() as int) =~= words.deep_view());
    }
    s
}

/// The errors of an RCON connection, as far as the decisions below tell
/// them apart.
#[derive(Debug, Clone, Copy, PartialEq, Eq, Structural)]
pub enum RconError {
    /// The password was refused.
    Auth,
    /// The command was too long to send.
    CommandTooLong,
    /// The connection was refused: the game is most likely not running.
    ConnectionRefused,
    /// Any other I/O error, by its kind.
    Io(u32),
    /// The connection attempt timed out.
    TimeOut,
    /// Anything else RCON reports.
    Other,
}

/// The state of the RCON connection: never tried, fine, or failing with an
/// error.
#[derive(Debug, Clone, Copy, PartialEq, Eq, Structural)]
pub enum ErrorState {
    Never,
    Okay,
    Current(RconError),
}

/// How a failed connection attempt is reported.
#[derive(Debug, Clone, Copy, PartialEq, Eq, Structural)]
pub enum ConnectReport {
    /// Nothing changed since the last attempt, or it worked.
    Quiet,
    /// A first refusal: expected while the game is not running.
    Warn(RconError),
    /// A new error.
    Error(RconError),
}

/// A message to the RCON side: run a command, or change the password or
/// the port.
pub enum CommandManagerMessage {
    RunCommand(Command),
    SetRconPassword(String),
    SetRconPort(u16),
}

/// The RCON connection's settings and state, without the connection itself.
pub struct RconState {
    pub password: String,
    pub port: u16,
    pub current: ErrorState,
    pub previous: ErrorState,
}

/// Whether a connection is to be tried: the connection is not fine and
/// did not fail on the password.
pub open spec fn spec_needs_connect(s: RconState) -> bool {
    !(s.current == ErrorState::Okay || s.current == ErrorState::Current(RconError::Auth))
}

/// A refused password is not tried again; once the password or the port
/// is changed (which starts the state over as never connected), a
/// connection is tried.
pub proof fn lemma_auth_waits_for_new_settings(s: RconState, password: String, port: u16)
    requires
        s.current == ErrorState::Current(RconError::Auth),
    ensures
        !spec_needs_connect(s),
        spec_needs_connect(RconState { password, current: ErrorState::Never, ..s }),
        spec_needs_connect(RconState { port, current: ErrorState::Never, ..s }),
{
}

impl RconState {
    /// No connection tried yet, on the default port.
    pub fn new() -> (s: RconState)
        ensures
            s.password@.len() == 0,
            s.port == 27015,
            s.current == ErrorState::Never,
            s.previous == ErrorState::Never,
    {
        RconState { password: String::new(), port: 27015, current: ErrorState::Never, previous: ErrorState::Never }
    }

    /// Whether to connect again before running a command: the password or
    /// port changed, or the connection is not fine and did not fail on the
    /// password (retrying a refused password gets the client shut out).
    pub fn should_reconnect(&self, port: u16, password: &str) -> (b: bool)
        ensures
            b == (password@ != self.password@ || port != self.port || !(self.current == ErrorState::Okay
                || self.current == ErrorState::Current(RconError::Auth))),
    {
        let same_pwd = crate::player_records::string_eq_str(&self.password, password);
        !same_pwd || port != self.port || !(self.current == ErrorState::Okay || self.current
            == ErrorState::Current(RconError::Auth))
    }

    /// Records the outcome of a connection attempt with these settings, and
    /// says how to report it: a success is quiet; a failure is reported where
    /// it differs from the state before, as a warning where the connection
    /// was refused on the first try, and as an error otherwise.
    pub fn record_connect(&mut self, port: u16, password: String, outcome: Result<(), RconError>) -> (report: ConnectReport)
        ensures
            final(self).port == port,
            final(self).password@ == password@,
            final(self).previous == old(self).current,
            final(self).current == match outcome {
                Ok(()) => ErrorState::Okay,
                Err(e) => ErrorState::Current(e),
            },
            report == match outcome {
                Ok(()) => ConnectReport::Quiet,
                Err(e) => if ErrorState::Current(e) == old(self).current {
                    ConnectReport::Quiet
                } else if old(self).current == ErrorState::Never && e == RconError::ConnectionRefused {
                    ConnectReport::Warn(e)
                } else {
                    ConnectReport::Error(e)
                },
            },
    {
        self.port = port;
        self.password = password;
        self.previous = self.current;
        match outcome {
            Ok(()) => {
                self.current = ErrorState::Okay;
                ConnectReport::Quiet
            },
            Err(e) => {
                self.current = ErrorState::Current(e);
                if self.current == self.previous {
                    ConnectReport::Quiet
                } else if self.previous == ErrorState::Never && e == RconError::ConnectionRefused {
                    ConnectReport::Warn(e)
                } else {
                    ConnectReport::Error(e)
                }
            },
        }
    }

    /// How the state is reported before a connection attempt: a change of
    /// state to an error is reported, as a warning where the connection was
    /// refused on the first try; anything else is quiet.
    pub fn report(&self) -> (r: ConnectReport)
        ensures
            r == if self.current == self.previous {
                ConnectReport::Quiet
            } else {
                match self.current {
                    ErrorState::Current(e) => if e == RconError::ConnectionRefused && self.previous
                        == ErrorState::Never {
                        ConnectReport::Warn(e)
                    } else {
                        ConnectReport::Error(e)
                    },
                    _ => ConnectReport::Quiet,
                }
            },
    {
        if self.current == self.previous {
            return ConnectReport::Quiet;
        }
        match self.current {
            ErrorState::Current(e) => {
                if e == RconError::ConnectionRefused && self.previous == ErrorState::Never {
                    ConnectReport::Warn(e)
                } else {
                    ConnectReport::Error(e)
                }
            },
            _ => ConnectReport::Quiet,
        }
    }

    /// Whether to try to connect: the connection is not fine and did not
    /// fail on the password.
    pub fn needs_connect(&self) -> (b: bool)
        ensures
            b == spec_needs_connect(*self),
    {
        !(self.current == ErrorState::Okay || self.current == ErrorState::Current(RconError::Auth))
    }

    /// Records the outcome of a connection attempt with the current
    /// settings: the state before it becomes the previous one.
    pub fn record_reconnect(&mut self, outcome: Result<(), RconError>)
        ensures
            final(self).previous == old(self).current,
            final(self).current == match outcome {
                Ok(()) => ErrorState::Okay,
                Err(e) => ErrorState::Current(e),
            },
            final(self).port == old(self).port,
            final(self).password == old(self).password,
    {
        self.previous = self.current;
        self.current = match outcome {
            Ok(()) => ErrorState::Okay,
            Err(e) => ErrorState::Current(e),
        };
    }

    /// A message to the RCON side. A command is run only on a fine
    /// connection, and is returned to be run; new settings are kept, and
    /// the state starts over as never connected.
    pub fn on_message(&mut self, msg: CommandManagerMessage) -> (run: Option<Command>)
        ensures
            match msg {
                CommandManagerMessage::RunCommand(c) => (if old(self).current == ErrorState::Okay {
                    run == Some(c)
                } else {
                    run is None
                }) && *final(self) == *old(self),
                CommandManagerMessage::SetRconPassword(p) => run is None && final(self).password == p
                    && final(self).port == old(self).port && final(self).current == ErrorState::Never
                    && final(self).previous == old(self).previous,
                CommandManagerMessage::SetRconPort(p) => run is None && final(self).port == p
                    && final(self).password == old(self).password && final(self).current == ErrorState::Never
                    && final(self).previous == old(self).previous,
            },
    {
        match msg {
            CommandManagerMessage::RunCommand(c) => {
                if self.current == ErrorState::Okay {
                    Some(c)
                } else {
                    None
                }
            },
            CommandManagerMessage::SetRconPassword(p) => {
                self.password = p;
                self.current = ErrorState::Never;
                None
            },
            CommandManagerMessage::SetRconPort(p) => {
                self.port = p;
                self.current = ErrorState::Never;
                None
            },
        }
    }

    /// Records that a command failed on an open connection.
    pub fn record_command_failure(&mut self, e: RconError)
        ensures
            final(self).previous == ErrorState::Okay,
            final(self).current == ErrorState::Current(e),
            final(self).port == old(self).port,
            final(self).password@ == old(self).password@,
    {
        self.previous = ErrorState::Okay;
        self.current = ErrorState::Current(e);
    }
}

/// Runs the commands the user asks for, and alternates `status` and
/// `g15_dumpplayer` on each refresh.
pub struct CommandManager {
    pub refresh_status: bool,
}

impl CommandManager {
    /// The next refresh runs `status`.
    pub fn new() -> (c: CommandManager)
        ensures
            !c.refresh_status,
    {
        CommandManager { refresh_status: false }
    }

    /// The command a refresh runs: `status` and `g15_dumpplayer` in turn.
    pub fn on_refresh(&mut self) -> (c: Command)
        ensures
            final(self).refresh_status == !old(self).refresh_status,
            final(self).refresh_status ==> c is Status,
            !final(self).refresh_status ==> c is G15,
    {
        self.refresh_status = !self.refresh_status;
        if self.refresh_status {
            Command::Status
        } else {
            Command::G15
        }
    }

    /// Whether a command the user asked for is run: custom commands only
    /// where the user enabled them.
    pub fn should_run(cmd: &Command, custom_commands_enabled: bool) -> (b: bool)
        ensures
            b == (!(*cmd is Custom) || custom_commands_enabled),
    {
        !cmd.is_custom_command() || custom_commands_enabled
    }
}

/// Calls votes to kick the bots on the user's team.
pub struct DumbAutoKick;

/// Whether the connected player `s` is a bot to kick: recorded as a bot,
/// known to the game, on the user's team (which is not unassigned), and
/// active.
pub open spec fn kickable(players: Players, team: Team, s: u64) -> bool {
    &&& players.records.records@.contains_key(s)
    &&& players.records.records@[s].verdict == Verdict::Bot
    &&& players.game_info@.contains_key(s)
    &&& players.game_info@[s].team == team
    &&& team != Team::Unassigned
    &&& players.game_info@[s].state == PlayerState::Active
}

/// The players autokick names are exactly the connected players recorded
/// as bots who are active and on the user's team (a known team): each one
/// kicked is such a player, and each such player is kicked.
pub proof fn lemma_kicks_active_bots(players: Players, team: Team, s: u64)
    ensures
        players.connected@.filter(|x: u64| kickable(players, team, x)).contains(s) <==> {
            &&& players.connected@.contains(s)
            &&& players.records.records@.contains_key(s)
            &&& players.records.records@[s].verdict == Verdict::Bot
            &&& players.game_info@.contains_key(s)
            &&& players.game_info@[s].state == PlayerState::Active
            &&& players.game_info@[s].team == team
            &&& team != Team::Unassigned
        },
{
    broadcast use vstd::seq_lib::group_filter_ensures;

    let pred = |x: u64| kickable(players, team, x);
    let ks = players.connected@.filter(pred);
    if ks.contains(s) {
        players.connected@.lemma_filter_contains_rev(pred, s);
        let k = choose|k: int| 0 <= k < ks.len() && ks[k] == s;
        assert(pred(ks[k]));
    }
    if players.connected@.contains(s) && kickable(players, team, s) {
        let i = choose|i: int| 0 <= i < players.connected@.len() && players.connected@[i] == s;
        assert(pred(players.connected@[i]));
    }
}

impl DumbAutoKick {
    /// The kicks to call on a refresh: none where autokick is off or the
    /// user's team is not known; else a kick for cheating of each kickable
    /// connected player (see `kickable`), in the order of `connected`.
    pub fn kicks(players: &Players, autokick_bots: bool) -> (r: Option<Vec<Command>>)
        ensures
            !autokick_bots ==> r is None,
            autokick_bots ==> match players.user {
                Some(u) if players.game_info@.contains_key(u) => r matches Some(cmds) && {
                    let team = players.game_info@[u].team;
                    let ks = players.connected@.filter(|s: u64| kickable(*players, team, s));
                    &&& cmds@.len() == ks.len()
                    &&& forall|i: int|
                        0 <= i < cmds@.len() ==> (#[trigger] cmds@[i] matches Command::Kick { player, reason }
                            && reason == KickReason::Cheating && player@ == players.game_info@[ks[i]].userid@)
                },
                _ => r is None,
            },
    {
        if !autokick_bots {
            return None;
        }
        let user = match players.user {
            Some(u) => u,
            None => {
                return None;
            },
        };
        let team = match players.game_info.get(&user) {
            Some(gi) => gi.team,
            None => {
                return None;
            },
        };
        let mut cmds: Vec<Command> = Vec::new();
        let mut i: usize = 0;
        while i < players.connected.len()
            invariant
                i <= players.connected@.len(),
                players.user == Some(user),
                players.game_info@.contains_key(user),
                team == players.game_info@[user].team,
                cmds@.len() == players.connected@.take(i as int).filter(|s: u64| kickable(*players, team, s)).len(),
                forall|j: int|
                    0 <= j < cmds@.len() ==> (#[trigger] cmds@[j] matches Command::Kick { player, reason }
                        && reason == KickReason::Cheating && player@ == players.game_info@[players.connected@.take(i as int).filter(|s: u64| kickable(*players, team, s))[j]].userid@),
            decreases players.connected.len() - i,
        {
            let s = players.connected[i];
            let ghost prev = players.connected@.take(i as int).filter(|s: u64| kickable(*players, team, s));
            proof {
                reveal(Seq::filter);
                assert(players.connected@.take(i + 1).drop_last() =~= players.connected@.take(i as int));
            }
            let is_bot = match players.records.records.get(&s) {
                Some(r) => r.verdict == Verdict::Bot,
                None => false,
            };
            if is_bot {
                match players.game_info.get(&s) {
                    Some(gi) => {
                        if gi.team == team && gi.team != Team::Unassigned && gi.state == PlayerState::Active {
                            cmds.push(Command::Kick { player: gi.userid.clone(), reason: KickReason::Cheating });
                            proof {
                                let now = players.connected@.take(i + 1).filter(|s: u64| kickable(*players, team, s));
                                assert(now == prev.push(s));
                                assert forall|j: int| 0 <= j < cmds@.len() implies (#[trigger] cmds@[j] matches Command::Kick { player, reason }
                                    && reason == KickReason::Cheating && player@ == players.game_info@[now[j]].userid@) by {
                                    if j < prev.len() {
                                        assert(now[j] == prev[j]);
                                    }
                                }
                            }
                        }
                    },
                    None => {},
                }
            }
            i = i + 1;
        }
        proof {
            assert(players.connected@.take(players.connected@.len() as int) =~= players.connected@);
        }
        Some(cmds)
    }
}

} // verus!

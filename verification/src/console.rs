//! Reading the game console: each line is matched against the known
//! patterns, and a `g15_dumpplayer` dump is read as a whole.
use vstd::prelude::*;

use crate::io::g15::{g15_slots_in_range, slots_in_range, spec_parse_g15, G15Player, Parser};
use crate::io::regexes::{
    captures, group, groups_present, has_groups, spec_captures, spec_get_time, u32_or_zero,
    status_state, ChatMessage, DemoStop, Hostname, MapName, PlayerCount, PlayerKill, ServerIP,
    StatusLine, REGEX_CHAT, REGEX_DEMOSTOP, REGEX_HOSTNAME, REGEX_IP, REGEX_KILL, REGEX_MAP,
    REGEX_PLAYERCOUNT, REGEX_STATUS,
};
use crate::player::{first_named, Players};
use crate::steamid::spec_from_steam3;
use crate::text::{lines, spec_decimal, spec_lines, spec_split, u64_to_decimal};

verus! {

/// Text the console printed, not yet read.
#[derive(Debug, Clone)]
pub struct RawConsoleOutput(pub String);

/// Something read from the console.
#[derive(Debug)]
pub enum ConsoleOutput {
    Status(StatusLine),
    Chat(ChatMessage),
    Kill(PlayerKill),
    Hostname(Hostname),
    ServerIP(ServerIP),
    MapName(MapName),
    PlayerCount(PlayerCount),
    G15(Vec<G15Player>),
    DemoStop(DemoStop),
}

/// The single-line patterns, in the order a line is tried against them.
#[derive(Debug, Clone, Copy, PartialEq, Eq, Structural)]
pub enum LineKind {
    Status,
    Chat,
    Kill,
    Hostname,
    ServerIP,
    MapLine,
    PlayerCount,
    DemoStop,
}

/// The kinds of line, in the order they are tried.
pub open spec fn line_kinds() -> Seq<LineKind> {
    seq![
        LineKind::Status,
        LineKind::Chat,
        LineKind::Kill,
        LineKind::Hostname,
        LineKind::ServerIP,
        LineKind::MapLine,
        LineKind::PlayerCount,
        LineKind::DemoStop,
    ]
}

/// The pattern of a kind of line.
pub open spec fn kind_pattern(k: LineKind) -> Seq<char> {
    match k {
        LineKind::Status => REGEX_STATUS@,
        LineKind::Chat => REGEX_CHAT@,
        LineKind::Kill => REGEX_KILL@,
        LineKind::Hostname => REGEX_HOSTNAME@,
        LineKind::ServerIP => REGEX_IP@,
        LineKind::MapLine => REGEX_MAP@,
        LineKind::PlayerCount => REGEX_PLAYERCOUNT@,
        LineKind::DemoStop => REGEX_DEMOSTOP@,
    }
}

/// How many capture groups a kind of line is read from.
pub open spec fn kind_groups(k: LineKind) -> int {
    match k {
        LineKind::Status => 7,
        LineKind::Chat => 2,
        LineKind::Kill => 3,
        LineKind::Hostname => 1,
        LineKind::ServerIP => 1,
        LineKind::MapLine => 1,
        LineKind::PlayerCount => 3,
        LineKind::DemoStop => 2,
    }
}

/// Whether `line` gives something of kind `k`: the pattern matches with
/// its groups, and a status line's Steam3 id decodes.
pub open spec fn kind_matches(k: LineKind, line: Seq<char>) -> bool {
    match spec_captures(kind_pattern(k), line) {
        Some(c) => has_groups(c, kind_groups(k)) && (k == LineKind::Status ==> spec_from_steam3(
            group(c, 3),
        ) is Some),
        None => false,
    }
}

/// The kinds `line` gives, in order.
pub open spec fn matches_of(line: Seq<char>) -> spec_fn(LineKind) -> bool {
    |k: LineKind| kind_matches(k, line)
}

/// Whether `o` is what a line with the captures `c` gives as kind `k`.
pub open spec fn read_as(k: LineKind, c: Seq<Option<Seq<char>>>, o: ConsoleOutput) -> bool {
    match (k, o) {
        (LineKind::Status, ConsoleOutput::Status(s)) => {
            &&& spec_from_steam3(group(c, 3)) == Some(s.steamid)
            &&& s.userid@ == group(c, 1)
            &&& s.name@ == group(c, 2)
            &&& s.time == match spec_get_time(group(c, 4)) {
                Some(t) => t,
                None => 0,
            }
            &&& s.ping == u32_or_zero(group(c, 5))
            &&& s.loss == u32_or_zero(group(c, 6))
            &&& s.state == status_state(group(c, 7))
        },
        (LineKind::Chat, ConsoleOutput::Chat(m)) => m.player_name@ == group(c, 1) && m.message@ == group(
            c,
            2,
        ) && m.steamid is None,
        (LineKind::Kill, ConsoleOutput::Kill(m)) => {
            &&& m.killer_name@ == group(c, 1)
            &&& m.victim_name@ == group(c, 2)
            &&& m.weapon@ == group(c, 3)
            &&& m.killer_steamid is None
            &&& m.victim_steamid is None
            &&& m.crit == (4 < c.len() && c[4] is Some)
        },
        (LineKind::Hostname, ConsoleOutput::Hostname(h)) => h.0@ == group(c, 1),
        (LineKind::ServerIP, ConsoleOutput::ServerIP(h)) => h.0@ == group(c, 1),
        (LineKind::MapLine, ConsoleOutput::MapName(h)) => h.0@ == group(c, 1),
        (LineKind::PlayerCount, ConsoleOutput::PlayerCount(p)) => p.players == u32_or_zero(group(c, 1))
            && p.bots == u32_or_zero(group(c, 2)) && p.max == u32_or_zero(group(c, 3)),
        (LineKind::DemoStop, ConsoleOutput::DemoStop(d)) => d.seconds@ == group(c, 1) && d.frames
            == u32_or_zero(group(c, 2)),
        _ => false,
    }
}

/// Whether `outs` is what `line` gives: one output for each kind the line
/// matches, in the order of `line_kinds`, each read from the line's
/// captures.
pub open spec fn line_read(line: Seq<char>, outs: Seq<ConsoleOutput>) -> bool {
    let ks = line_kinds().filter(matches_of(line));
    &&& outs.len() == ks.len()
    &&& forall|j: int|
        0 <= j < outs.len() ==> read_as(
            ks[j],
            spec_captures(kind_pattern(ks[j]), line)->Some_0,
            #[trigger] outs[j],
        )
}

/// The pattern of a kind of line, as text.
fn pattern_of(k: LineKind) -> (p: &'static str)
    ensures
        p@ == kind_pattern(k),
{
    match k {
        LineKind::Status => REGEX_STATUS,
        LineKind::Chat => REGEX_CHAT,
        LineKind::Kill => REGEX_KILL,
        LineKind::Hostname => REGEX_HOSTNAME,
        LineKind::ServerIP => REGEX_IP,
        LineKind::MapLine => REGEX_MAP,
        LineKind::PlayerCount => REGEX_PLAYERCOUNT,
        LineKind::DemoStop => REGEX_DEMOSTOP,
    }
}

/// What `line` gives as kind `k`, where it matches.
pub fn read_kind(k: LineKind, line: &str) -> (r: Option<ConsoleOutput>)
    ensures
        r is Some <==> kind_matches(k, line@),
        r matches Some(o) ==> read_as(k, spec_captures(kind_pattern(k), line@)->Some_0, o),
{
    let pattern = pattern_of(k);
    let caps = match captures(pattern, line) {
        Some(c) => c,
        None => {
            return None;
        },
    };
    let n: usize = match k {
        LineKind::Status => 7,
        LineKind::Chat => 2,
        LineKind::Kill => 3,
        LineKind::Hostname => 1,
        LineKind::ServerIP => 1,
        LineKind::MapLine => 1,
        LineKind::PlayerCount => 3,
        LineKind::DemoStop => 2,
    };
    if !groups_present(&caps, n) {
        return None;
    }
    match k {
        LineKind::Status => match StatusLine::parse(&caps) {
            Ok(s) => Some(ConsoleOutput::Status(s)),
            Err(_) => None,
        },
        LineKind::Chat => Some(ConsoleOutput::Chat(ChatMessage::parse(&caps))),
        LineKind::Kill => Some(ConsoleOutput::Kill(PlayerKill::parse(&caps))),
        LineKind::Hostname => Some(ConsoleOutput::Hostname(Hostname::parse(&caps))),
        LineKind::ServerIP => Some(ConsoleOutput::ServerIP(ServerIP::parse(&caps))),
        LineKind::MapLine => Some(ConsoleOutput::MapName(MapName::parse(&caps))),
        LineKind::PlayerCount => Some(ConsoleOutput::PlayerCount(PlayerCount::parse(&caps))),
        LineKind::DemoStop => Some(ConsoleOutput::DemoStop(DemoStop::parse(&caps))),
    }
}

/// Everything one line of console output gives (see `line_read`).
pub fn read_line(line: &str) -> (outs: Vec<ConsoleOutput>)
    ensures
        line_read(line@, outs@),
{
    let kinds: Vec<LineKind> = vec![
        LineKind::Status,
        LineKind::Chat,
        LineKind::Kill,
        LineKind::Hostname,
        LineKind::ServerIP,
        LineKind::MapLine,
        LineKind::PlayerCount,
        LineKind::DemoStop,
    ];
    assert(kinds@ =~= line_kinds());
    let mut outs: Vec<ConsoleOutput> = Vec::new();
    let mut i: usize = 0;
    while i < kinds.len()
        invariant
            kinds@ == line_kinds(),
            i <= kinds@.len(),
            outs@.len() == kinds@.take(i as int).filter(matches_of(line@)).len(),
            forall|j: int|
                0 <= j < outs@.len() ==> read_as(
                    kinds@.take(i as int).filter(matches_of(line@))[j],
                    spec_captures(kind_pattern(kinds@.take(i as int).filter(matches_of(line@))[j]), line@)->Some_0,
                    #[trigger] outs@[j],
                ),
        decreases kinds.len() - i,
    {
        let k = kinds[i];
        let ghost prev = kinds@.take(i as int).filter(matches_of(line@));
        proof {
            reveal(Seq::filter);
            assert(kinds@.take(i + 1).drop_last() =~= kinds@.take(i as int));
            assert(kinds@.take(i + 1).last() == k);
        }
        match read_kind(k, line) {
            Some(o) => {
                outs.push(o);
                proof {
                    let now = kinds@.take(i + 1).filter(matches_of(line@));
                    assert(now == prev.push(k));
                    assert forall|j: int| 0 <= j < outs@.len() implies read_as(
                        now[j],
                        spec_captures(kind_pattern(now[j]), line@)->Some_0,
                        #[trigger] outs@[j],
                    ) by {
                        if j < prev.len() {
                            assert(now[j] == prev[j]);
                        }
                    }
                }
            },
            None => {
                proof {
                    assert(kinds@.take(i + 1).filter(matches_of(line@)) == prev);
                }
            },
        }
        i = i + 1;
    }
    proof {
        assert(kinds@.take(kinds@.len() as int) =~= kinds@);
    }
    outs
}

/// The kinds of line the log reader tries, in order: all but the end of a
/// demo recording.
pub open spec fn log_line_kinds() -> Seq<LineKind> {
    seq![
        LineKind::Status,
        LineKind::Chat,
        LineKind::Kill,
        LineKind::Hostname,
        LineKind::ServerIP,
        LineKind::MapLine,
        LineKind::PlayerCount,
    ]
}

/// The first of the kinds `ks` that `line` matches.
pub open spec fn first_kind(ks: Seq<LineKind>, line: Seq<char>) -> Option<LineKind>
    decreases ks.len(),
{
    if ks.len() == 0 {
        None
    } else if kind_matches(ks[0], line) {
        Some(ks[0])
    } else {
        first_kind(ks.drop_first(), line)
    }
}

/// Whether `r` is what the log reader takes from `line`: the first kind of
/// `log_line_kinds` the line matches, read from its captures, or nothing.
pub open spec fn log_line_read(line: Seq<char>, r: Option<ConsoleOutput>) -> bool {
    match first_kind(log_line_kinds(), line) {
        None => r is None,
        Some(k) => r matches Some(o) && read_as(k, spec_captures(kind_pattern(k), line)->Some_0, o),
    }
}

/// What one line of the log gives where only the first matching pattern
/// counts (see `log_line_read`).
pub fn read_log_line(line: &str) -> (r: Option<ConsoleOutput>)
    ensures
        log_line_read(line@, r),
{
    let kinds: Vec<LineKind> = vec![
        LineKind::Status,
        LineKind::Chat,
        LineKind::Kill,
        LineKind::Hostname,
        LineKind::ServerIP,
        LineKind::MapLine,
        LineKind::PlayerCount,
    ];
    assert(kinds@ =~= log_line_kinds());
    assert(kinds@.skip(0) =~= kinds@);
    let mut i: usize = 0;
    while i < kinds.len()
        invariant
            kinds@ == log_line_kinds(),
            i <= kinds@.len(),
            first_kind(kinds@, line@) == first_kind(kinds@.skip(i as int), line@),
        decreases kinds.len() - i,
    {
        let k = kinds[i];
        proof {
            assert(kinds@.skip(i as int)[0] == k);
            assert(kinds@.skip(i as int).drop_first() =~= kinds@.skip(i + 1));
        }
        match read_kind(k, line) {
            Some(o) => {
                return Some(o);
            },
            None => {},
        }
        i = i + 1;
    }
    proof {
        assert(kinds@.skip(i as int).len() == 0);
    }
    None
}

/// Whether `outs` is what the log reader takes from the lines `ls`, line
/// after line (see `log_line_read`).
pub open spec fn log_lines_read(ls: Seq<Seq<char>>, outs: Seq<ConsoleOutput>) -> bool
    decreases ls.len(),
{
    if ls.len() == 0 {
        outs.len() == 0
    } else {
        match first_kind(log_line_kinds(), ls.last()) {
            None => log_lines_read(ls.drop_last(), outs),
            Some(_) => outs.len() > 0 && log_lines_read(ls.drop_last(), outs.drop_last()) && log_line_read(
                ls.last(),
                Some(outs.last()),
            ),
        }
    }
}

/// What a command's output gives where only the first matching pattern of
/// a line counts: each line is read (see `log_lines_read`), then the text
/// as a whole as a `g15_dumpplayer` dump, added last where it reports any
/// player. `None` where the dump names a slot past the last one.
pub fn read_command_response(response: &str) -> (r: Option<Vec<ConsoleOutput>>)
    ensures
        r is None <==> !slots_in_range(spec_split(response@, '\n')),
        r matches Some(outs) ==> {
            let g = spec_parse_g15(response@);
            if g.len() == 0 {
                log_lines_read(spec_lines(response@), outs@)
            } else {
                &&& outs@.len() > 0
                &&& log_lines_read(spec_lines(response@), outs@.drop_last())
                &&& outs@.last() matches ConsoleOutput::G15(ps) && ps@.map_values(|p: G15Player| p@) == g
            }
        },
{
    if !g15_slots_in_range(response) {
        return None;
    }
    let ls = lines(response);
    let ghost lsv = ls.deep_view();
    let mut out: Vec<ConsoleOutput> = Vec::new();
    let mut i: usize = 0;
    while i < ls.len()
        invariant
            lsv == ls.deep_view(),
            i <= ls@.len(),
            log_lines_read(lsv.take(i as int), out@),
        decreases ls.len() - i,
    {
        proof {
            assert(lsv[i as int] == ls@[i as int]@);
            assert(lsv.take(i + 1).drop_last() =~= lsv.take(i as int));
            assert(lsv.take(i + 1).last() == lsv[i as int]);
        }
        match read_log_line(ls[i].as_str()) {
            Some(o) => {
                let ghost before = out@;
                out.push(o);
                proof {
                    assert(out@.drop_last() =~= before);
                }
            },
            None => {},
        }
        i = i + 1;
    }
    proof {
        assert(lsv.take(lsv.len() as int) =~= lsv);
    }
    let players = Parser::parse_g15(response);
    if players.len() > 0 {
        let ghost lines_out = out@;
        out.push(ConsoleOutput::G15(players));
        proof {
            assert(out@.drop_last() =~= lines_out);
        }
    }
    Some(out)
}

/// Whether `outs` is what the lines `ls` give, line after line.
pub open spec fn lines_read(ls: Seq<Seq<char>>, outs: Seq<ConsoleOutput>) -> bool
    decreases ls.len(),
{
    if ls.len() == 0 {
        outs.len() == 0
    } else {
        exists|k: int|
            0 <= k <= outs.len() && lines_read(ls.drop_last(), outs.take(k)) && line_read(
                ls.last(),
                outs.skip(k),
            )
    }
}

/// Reads console output: every line is read (see `line_read`), then the
/// text as a whole is read as a `g15_dumpplayer` dump, which is added last
/// where it reports any player. `None` where the dump names a slot past
/// the last one, which cannot be read.
pub fn read_console_output(message: &RawConsoleOutput) -> (r: Option<Vec<ConsoleOutput>>)
    ensures
        r is None <==> !slots_in_range(spec_split(message.0@, '\n')),
        r matches Some(outs) ==> {
            let g = spec_parse_g15(message.0@);
            if g.len() == 0 {
                lines_read(spec_lines(message.0@), outs@)
            } else {
                &&& outs@.len() > 0
                &&& lines_read(spec_lines(message.0@), outs@.drop_last())
                &&& outs@.last() matches ConsoleOutput::G15(ps) && ps@.map_values(|p: G15Player| p@) == g
            }
        },
{
    if !g15_slots_in_range(message.0.as_str()) {
        return None;
    }
    let ls = lines(message.0.as_str());
    let ghost lsv = ls.deep_view();
    let mut out: Vec<ConsoleOutput> = Vec::new();
    let mut i: usize = 0;
    while i < ls.len()
        invariant
            lsv == ls.deep_view(),
            i <= ls@.len(),
            lines_read(lsv.take(i as int), out@),
        decreases ls.len() - i,
    {
        let got = read_line(ls[i].as_str());
        let ghost before = out@;
        proof {
            assert(lsv[i as int] == ls@[i as int]@);
        }
        let mut got = got;
        let ghost gotv = got@;
        out.append(&mut got);
        proof {
            let now = lsv.take(i + 1);
            assert(now.drop_last() =~= lsv.take(i as int));
            assert(out@.take(before.len() as int) =~= before);
            assert(out@.skip(before.len() as int) =~= gotv);
            assert(lines_read(now, out@));
        }
        i = i + 1;
    }
    proof {
        assert(lsv.take(lsv.len() as int) =~= lsv);
    }
    let players = Parser::parse_g15(message.0.as_str());
    if players.len() > 0 {
        let ghost lines_out = out@;
        out.push(ConsoleOutput::G15(players));
        proof {
            assert(out@.drop_last() =~= lines_out);
        }
    }
    Some(out)
}

/// A SteamID in decimal, where there is one.
pub open spec fn decimal_id(id: Option<u64>) -> Option<Seq<char>> {
    match id {
        Some(i) => Some(spec_decimal(i as nat)),
        None => None,
    }
}

impl ConsoleOutput {
    /// Fills in the SteamIDs of the players a chat message or a kill names:
    /// the first connected player the game knows by that name, in decimal,
    /// or none. Other output is left as it is.
    pub fn preprocess(&mut self, players: &Players)
        ensures
            match *old(self) {
                ConsoleOutput::Chat(m) => *final(self) matches ConsoleOutput::Chat(n)
                    && n.player_name == m.player_name && n.message == m.message
                    && n.steamid.deep_view() == decimal_id(
                    first_named(players.connected@, players.game_info@, m.player_name@),
                ),
                ConsoleOutput::Kill(m) => *final(self) matches ConsoleOutput::Kill(n)
                    && n.killer_name == m.killer_name && n.victim_name == m.victim_name
                    && n.weapon == m.weapon && n.crit == m.crit
                    && n.killer_steamid.deep_view() == decimal_id(
                    first_named(players.connected@, players.game_info@, m.killer_name@),
                ) && n.victim_steamid.deep_view() == decimal_id(
                    first_named(players.connected@, players.game_info@, m.victim_name@),
                ),
                _ => *final(self) == *old(self),
            },
    {
        match self {
            ConsoleOutput::Chat(m) => {
                m.steamid = match players.get_steamid_from_name(m.player_name.as_str()) {
                    Some(id) => Some(u64_to_decimal(id)),
                    None => None,
                };
            },
            ConsoleOutput::Kill(m) => {
                m.killer_steamid = match players.get_steamid_from_name(m.killer_name.as_str()) {
                    Some(id) => Some(u64_to_decimal(id)),
                    None => None,
                };
                m.victim_steamid = match players.get_steamid_from_name(m.victim_name.as_str()) {
                    Some(id) => Some(u64_to_decimal(id)),
                    None => None,
                };
            },
            _ => {},
        }
    }
}

} // verus!

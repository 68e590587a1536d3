use client_backend::console::{
    read_command_response, read_console_output, read_line, read_log_line, ConsoleOutput, RawConsoleOutput,
};
use client_backend::player::{PlayerState, Players};
use client_backend::player_records::PlayerRecords;

#[test]
fn reads_chat_line() {
    let outs = read_line("*DEAD*(TEAM) Lilith :  gg");
    assert_eq!(outs.len(), 1);
    match &outs[0] {
        ConsoleOutput::Chat(c) => {
            assert_eq!(c.player_name, "Lilith");
            assert_eq!(c.message, "gg");
            assert_eq!(c.steamid, None);
        }
        other => panic!("unexpected {other:?}"),
    }
}

#[test]
fn reads_kill_line() {
    let outs = read_line("Lilith killed Lust with scattergun. (crit)");
    assert!(outs.iter().any(|o| matches!(o, ConsoleOutput::Kill(k)
        if k.killer_name == "Lilith" && k.victim_name == "Lust" && k.weapon == "scattergun" && k.crit)));
    let outs = read_line("A killed B with knife.");
    assert!(outs.iter().any(|o| matches!(o, ConsoleOutput::Kill(k) if !k.crit && k.weapon == "knife")));
}

#[test]
fn reads_status_line() {
    let outs = read_line("#    301 \"Lilith\"            [U:1:111216987]     57:48       67    0 active");
    assert_eq!(outs.len(), 1);
    match &outs[0] {
        ConsoleOutput::Status(s) => {
            assert_eq!(s.userid, "301");
            assert_eq!(s.name, "Lilith");
            assert_eq!(s.steamid, 76561198071482715);
            assert_eq!(s.time, 57 * 60 + 48);
            assert_eq!(s.ping, 67);
            assert_eq!(s.loss, 0);
            assert_eq!(s.state, PlayerState::Active);
        }
        other => panic!("unexpected {other:?}"),
    }
    let outs = read_line("#    302 \"New\"  [U:1:22202]  00:05  50  0 spawning");
    assert!(matches!(&outs[0], ConsoleOutput::Status(s) if s.state == PlayerState::Spawning && s.time == 5));
}

#[test]
fn reads_server_lines() {
    assert!(matches!(&read_line("hostname: Valve Matchmaking Server")[0],
        ConsoleOutput::Hostname(h) if h.0 == "Valve Matchmaking Server"));
    assert!(matches!(&read_line("udp/ip  : 169.254.1.1:27015")[0],
        ConsoleOutput::ServerIP(ip) if ip.0 == "169.254.1.1:27015"));
    assert!(matches!(&read_line("map     : pl_badwater at: 0 x, 0 y, 0 z")[0],
        ConsoleOutput::MapName(m) if m.0 == "pl_badwater"));
    assert!(matches!(&read_line("players : 23 humans, 2 bots (32 max)")[0],
        ConsoleOutput::PlayerCount(c) if c.players == 23 && c.bots == 2 && c.max == 32));
    assert!(matches!(&read_line("Completed demo, recording time 369.4, game frames 23494.")[0],
        ConsoleOutput::DemoStop(d) if d.seconds == "369.4" && d.frames == 23494));
    assert!(read_line("nothing to see here").is_empty());
}

#[test]
fn reads_whole_output_with_g15() {
    let text = "hostname: Server\nm_szName[1] string (Lilith)\nm_bValid[1] bool (true)\nm_iUserID[1] integer (5)\n";
    let outs = read_console_output(&RawConsoleOutput(text.to_string())).expect("slots in range");
    assert!(matches!(&outs[0], ConsoleOutput::Hostname(h) if h.0 == "Server"));
    assert!(matches!(outs.last(), Some(ConsoleOutput::G15(ps)) if ps.len() == 1));
    let outs = read_console_output(&RawConsoleOutput("no output".to_string())).expect("nothing read");
    assert!(outs.is_empty());
}

#[test]
fn preprocess_fills_ids_from_connected_names() {
    let mut players = Players::new(PlayerRecords::new("playerlist.json".to_string()), None);
    if let ConsoleOutput::Status(s) = read_line("#    301 \"Lilith\" [U:1:111216987] 57:48 67 0 active").remove(0) {
        players.handle_status_line(s);
    } else {
        panic!("status line");
    }
    let mut out = read_line("Lilith :  hello").remove(0);
    out.preprocess(&players);
    match out {
        ConsoleOutput::Chat(c) => assert_eq!(c.steamid.as_deref(), Some("76561198071482715")),
        other => panic!("unexpected {other:?}"),
    }
    let mut out = read_line("Lilith killed Nobody with rocket.").remove(0);
    out.preprocess(&players);
    match out {
        ConsoleOutput::Kill(k) => {
            assert_eq!(k.killer_steamid.as_deref(), Some("76561198071482715"));
            assert_eq!(k.victim_steamid, None);
        }
        other => panic!("unexpected {other:?}"),
    }
}

#[test]
fn log_reader_takes_first_pattern_only() {
    // The line reads both as a chat message and as a kill.
    let line = "Lilith :  Lust killed Bob with knife.";
    assert_eq!(read_line(line).len(), 2);
    match read_log_line(line) {
        Some(ConsoleOutput::Chat(c)) => {
            assert_eq!(c.player_name, "Lilith");
            assert_eq!(c.message, "Lust killed Bob with knife.");
        }
        other => panic!("unexpected {other:?}"),
    }
    assert!(read_log_line("nothing to see here").is_none());
    // The end of a demo recording is not one of the log reader's patterns.
    assert!(read_log_line("Completed demo, recording time 12.5, game frames 800.").is_none());
}

#[test]
fn command_response_reads_each_line_once() {
    let text = "hostname: Test Server\nLilith :  Lust killed Bob with knife.\nplayers : 3 humans, 1 bots (24 max)\n";
    let outs = read_command_response(text).expect("no g15 slots named");
    assert_eq!(outs.len(), 3);
    assert!(matches!(&outs[0], ConsoleOutput::Hostname(h) if h.0 == "Test Server"));
    assert!(matches!(&outs[1], ConsoleOutput::Chat(_)));
    assert!(matches!(&outs[2], ConsoleOutput::PlayerCount(p) if p.players == 3 && p.bots == 1 && p.max == 24));
    assert!(read_command_response("m_iPing[200] integer (5)").is_none());
}

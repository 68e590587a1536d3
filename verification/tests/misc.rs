use client_backend::command_manager::{Command, CommandManagerMessage};
use client_backend::console::{read_line, ConsoleOutput};
use client_backend::io::filewatcher::{new_log_lines, LogReadPlan, OpenFile};
use client_backend::io::{FileWatcherCommand, IOManagerMessage, IORoute};
use client_backend::masterbase::{
    close_session_outcome, endpoint, late_bytes_hex, ws_endpoint, CloseSessionOutcome,
};
use client_backend::new_players::ExtractNewPlayers;
use client_backend::player::Players;
use client_backend::player_records::PlayerRecords;
use client_backend::server::Server;
use client_backend::settings::Settings;
use client_backend::state::MACState;
use client_backend::steamhistory_api::SteamHistoryRequest;
use client_backend::tfbd::{
    update_url_to_fetch, FileInfo, SteamIdFormat, TF2BotDetectorPlayerListSchema,
};
use client_backend::time::{at_least_hours_between, parse_rfc3339, Timestamp};
use client_backend::vdf::{get_nested_value, parse_vdf, VdfValue};

#[test]
fn masterbase_addresses_and_hex() {
    assert_eq!(endpoint("megaanticheat.com", "/session_id", false), "https://megaanticheat.com/session_id");
    assert_eq!(endpoint("localhost:4000", "/late_bytes", true), "http://localhost:4000/late_bytes");
    assert_eq!(ws_endpoint("megaanticheat.com", "/demos", false), "wss://megaanticheat.com/demos");
    assert_eq!(ws_endpoint("h", "/demos", true), "ws://h/demos");
    assert_eq!(late_bytes_hex(&[0x00, 0x0f, 0xa0, 0xff]), "000fa0ff");
    assert_eq!(late_bytes_hex(&[]), "");
    assert_eq!(close_session_outcome(200), CloseSessionOutcome::Closed);
    assert_eq!(close_session_outcome(204), CloseSessionOutcome::Closed);
    assert_eq!(close_session_outcome(503), CloseSessionOutcome::ServerError);
    assert_eq!(close_session_outcome(401), CloseSessionOutcome::InvalidKey);
    assert_eq!(close_session_outcome(403), CloseSessionOutcome::NoSession);
    assert_eq!(close_session_outcome(404), CloseSessionOutcome::ClientError);
}

#[test]
fn steamhistory_request_joins_ids() {
    let r = SteamHistoryRequest::new_from_steamids("KEY".to_string(), &[76561198071482715, 2, 3]);
    assert_eq!(r.key, "KEY");
    assert_eq!(r.steamids, "76561198071482715,2,3");
    assert_eq!(r.shouldkey, 1);
    assert_eq!(SteamHistoryRequest::new_from_steamids(String::new(), &[]).steamids, "");
}

#[test]
fn tfbd_steamids_and_updates() {
    assert_eq!(SteamIdFormat::SteamIdString("[U:1:111216987]".to_string()).to_steamid(), Ok(76561198071482715));
    assert_eq!(SteamIdFormat::SteamIdString("STEAM_1:1:55608493".to_string()).to_steamid(), Ok(76561198071482715));
    assert!(SteamIdFormat::SteamIdString("nope".to_string()).to_steamid().is_err());
    assert_eq!(SteamIdFormat::SteamIdInteger(76561198071482715).to_steamid(), Ok(76561198071482715));
    assert_eq!(SteamIdFormat::SteamIdInteger(-1).to_steamid(), Ok(u64::MAX));
    let list = TF2BotDetectorPlayerListSchema {
        schema: String::new(),
        file_info: Some(FileInfo {
            authors: vec![],
            title: "t".to_string(),
            description: "d".to_string(),
            update_url: Some("https://example.invalid/list.json".to_string()),
        }),
        players: None,
    };
    assert_eq!(update_url_to_fetch(&list).map(|s| s.as_str()), Some("https://example.invalid/list.json"));
    let list = TF2BotDetectorPlayerListSchema {
        players: Some(vec![]),
        ..list
    };
    assert!(update_url_to_fetch(&list).is_some());
    let list = TF2BotDetectorPlayerListSchema {
        file_info: None,
        ..list
    };
    assert!(update_url_to_fetch(&list).is_none());
}

#[test]
fn log_following() {
    let mut f = OpenFile::new();
    assert_eq!(f.plan(0), LogReadPlan::Nothing);
    assert_eq!(f.plan(10), LogReadPlan::Read);
    f.on_read(10);
    assert_eq!(f.plan(10), LogReadPlan::Nothing);
    assert_eq!(f.plan(4), LogReadPlan::Reopen);
    assert!(OpenFile::reread_needed(0));
    assert!(!OpenFile::reread_needed(3));
    assert_eq!(new_log_lines("a\n  \n\r\nb c\r\n\t\n"), vec!["a".to_string(), "b c".to_string()]);
}

#[test]
fn io_messages_route() {
    assert!(matches!(
        IOManagerMessage::SetLogFilePath("tf/console.log".to_string()).route(),
        IORoute::FileWatcher(FileWatcherCommand::SetWatchedFile(p)) if p == "tf/console.log"
    ));
    assert!(matches!(
        IOManagerMessage::SetRconPassword("pw".to_string()).route(),
        IORoute::CommandManager(CommandManagerMessage::SetRconPassword(p)) if p == "pw"
    ));
    assert!(matches!(
        IOManagerMessage::RunCommand(Command::Status).route(),
        IORoute::CommandManager(CommandManagerMessage::RunCommand(Command::Status))
    ));
}

#[test]
fn time_parsing() {
    let t = parse_rfc3339("1970-01-01T01:00:00Z").expect("valid");
    assert_eq!(t, Timestamp { secs: 3600, nanos: 0 });
    assert!(parse_rfc3339("yesterday").is_none());
    let a = Timestamp { secs: 0, nanos: 0 };
    assert!(at_least_hours_between(a, Timestamp { secs: 4 * 3600, nanos: 0 }, 4));
    assert!(!at_least_hours_between(a, Timestamp { secs: 4 * 3600 - 1, nanos: 999_999_999 }, 4));
}

#[test]
fn vdf_lookup() {
    let doc = parse_vdf("\"root\" { \"a\" { \"b\" \"x\" } \"c\" \"y\" }").expect("parses");
    let keys = vec!["a".to_string(), "b".to_string()];
    assert_eq!(get_nested_value(&doc.value, &keys), Some(&VdfValue::Str("x".to_string())));
    let missing = vec!["a".to_string(), "z".to_string()];
    assert_eq!(get_nested_value(&doc.value, &missing), None);
}

#[test]
fn new_players_and_state() {
    let players = Players::new(PlayerRecords::new("p.json".to_string()), None);
    let status = read_line("#    301 \"Lilith\" [U:1:111216987] 57:48 67 0 active").remove(0);
    let found = ExtractNewPlayers.handle_message(&players, &status).expect("a status line names a player");
    assert_eq!(found.0, vec![76561198071482715]);
    let host = read_line("hostname: Server").remove(0);
    assert!(ExtractNewPlayers.handle_message(&players, &host).is_none());

    let mut state = MACState {
        server: Server::new(),
        settings: Settings::new_default(None, None),
        players,
    };
    state.handle_console_output(status);
    assert_eq!(state.players.connected, vec![76561198071482715]);
    let found = ExtractNewPlayers
        .handle_message(&state.players, &read_line("#    301 \"Lilith\" [U:1:111216987] 57:49 67 0 active").remove(0))
        .expect("named");
    assert!(found.0.is_empty());
    state.handle_console_output(host);
    assert_eq!(state.server.hostname().as_deref(), Some("Server"));
    state.handle_console_output(read_line("map     : cp_process_final at: 0 x, 0 y, 0 z").remove(0));
    assert_eq!(state.server.map().as_deref(), Some("cp_process_final"));
    let count = read_line("players : 1 humans, 0 bots (24 max)").remove(0);
    assert!(matches!(count, ConsoleOutput::PlayerCount(_)));
    state.handle_console_output(count);
    assert_eq!(state.server.max_players(), Some(24));
    assert_eq!(state.server.num_players(), Some(1));
}

use client_backend::command_manager::{
    Command, CommandError, CommandManager, CommandManagerMessage, ConnectReport, DumbAutoKick,
    ErrorState, KickReason, RconError, RconState,
};
use client_backend::io::g15::Parser;
use client_backend::player::Players;
use client_backend::player_records::{PlayerRecord, PlayerRecords, Verdict};

#[test]
fn command_text() {
    assert_eq!(Command::G15.to_string(), "g15_dumpplayer");
    assert_eq!(Command::Status.to_string(), "status");
    assert_eq!(Command::Say("hi".to_string()).to_string(), "say \"hi\"");
    assert_eq!(Command::SayTeam("go".to_string()).to_string(), "say_team \"go\"");
    assert_eq!(
        Command::Kick {
            player: "301".to_string(),
            reason: KickReason::Cheating
        }
        .to_string(),
        "callvote kick \"301 cheating\""
    );
    assert_eq!(
        Command::Kick {
            player: "7".to_string(),
            reason: KickReason::default()
        }
        .to_string(),
        "callvote kick \"7 other\""
    );
    assert_eq!(KickReason::Idle.to_string(), "idle");
    assert_eq!(KickReason::Scamming.to_string(), "scamming");
}

#[test]
fn custom_command_arguments() {
    let cmd = Command::Custom {
        command: "sm_ban".to_string(),
        args: vec![
            "76561198071482715::to_sid3".to_string(),
            "76561198071482715::to_sid2".to_string(),
            "76561198071482715::to_sid2_sm".to_string(),
            "76561198071482715::other".to_string(),
            "7656119bad::to_sid3".to_string(),
            "plain".to_string(),
        ],
    };
    assert!(cmd.is_custom_command());
    let parts = cmd.parse_custom_args().expect("custom");
    assert_eq!(
        parts,
        vec![
            "sm_ban".to_string(),
            "[U:1:111216987]".to_string(),
            "STEAM_1:1:55608493".to_string(),
            "\"#STEAM_1:1:55608493\"".to_string(),
            "76561198071482715".to_string(),
            "7656119bad::to_sid3".to_string(),
            "plain".to_string(),
        ]
    );
    assert_eq!(
        cmd.to_string(),
        "sm_ban [U:1:111216987] STEAM_1:1:55608493 \"#STEAM_1:1:55608493\" 76561198071482715 7656119bad::to_sid3 plain"
    );
    assert_eq!(Command::Status.parse_custom_args(), Err(CommandError::NotCustom));
    assert!(!Command::Status.is_custom_command());
}

#[test]
fn steam_id_argument_errors() {
    assert_eq!(
        Command::parse_steam_id_argument("abc::to_sid3"),
        Err(CommandError::NotASteamId)
    );
    // Not a valid account type / universe for steamid_ng.
    assert_eq!(
        Command::parse_steam_id_argument("18446744073709551615::to_sid3"),
        Err(CommandError::InvalidSteamId)
    );
    assert_eq!(
        Command::parse_steam_id_argument("76561198071482715"),
        Err(CommandError::NoFormat)
    );
    assert_eq!(Command::parse_steam_id_argument("7"), Err(CommandError::NoFormat));
    assert_eq!(
        Command::parse_steam_id_argument("76561198071482715::other"),
        Ok("76561198071482715".to_string())
    );
}

#[test]
fn refresh_alternates_status_and_g15() {
    let mut m = CommandManager::new();
    assert!(matches!(m.on_refresh(), Command::Status));
    assert!(matches!(m.on_refresh(), Command::G15));
    assert!(matches!(m.on_refresh(), Command::Status));
    assert!(CommandManager::should_run(&Command::Status, false));
    let custom = Command::Custom {
        command: "echo".to_string(),
        args: vec![],
    };
    assert!(!CommandManager::should_run(&custom, false));
    assert!(CommandManager::should_run(&custom, true));
}

#[test]
fn rcon_state_reporting() {
    let mut s = RconState::new();
    assert_eq!(s.current, ErrorState::Never);
    assert!(s.needs_connect());
    // First refusal: a warning.
    let r = s.record_connect(27015, "mac_rcon".to_string(), Err(RconError::ConnectionRefused));
    assert_eq!(r, ConnectReport::Warn(RconError::ConnectionRefused));
    // The same again: quiet.
    let r = s.record_connect(27015, "mac_rcon".to_string(), Err(RconError::ConnectionRefused));
    assert_eq!(r, ConnectReport::Quiet);
    // A wrong password: an error, and no retry until the settings change.
    let r = s.record_connect(27015, "mac_rcon".to_string(), Err(RconError::Auth));
    assert_eq!(r, ConnectReport::Error(RconError::Auth));
    assert!(!s.needs_connect());
    assert!(!s.should_reconnect(27015, "mac_rcon"));
    assert!(s.should_reconnect(27015, "other"));
    assert!(s.should_reconnect(27016, "mac_rcon"));
    // A new password starts over.
    assert!(s.on_message(CommandManagerMessage::SetRconPassword("new".to_string())).is_none());
    assert_eq!(s.current, ErrorState::Never);
    assert!(s.needs_connect());
    assert_eq!(s.password, "new");
    // Connected: commands run.
    s.record_reconnect(Ok(()));
    assert_eq!(s.current, ErrorState::Okay);
    assert_eq!(s.report(), ConnectReport::Quiet);
    assert!(matches!(s.on_message(CommandManagerMessage::RunCommand(Command::Status)), Some(Command::Status)));
    s.record_command_failure(RconError::TimeOut);
    assert_eq!(s.report(), ConnectReport::Error(RconError::TimeOut));
    assert!(s.on_message(CommandManagerMessage::RunCommand(Command::Status)).is_none());
    assert!(s.on_message(CommandManagerMessage::SetRconPort(27069)).is_none());
    assert_eq!(s.port, 27069);
    assert_eq!(s.current, ErrorState::Never);
}

#[test]
fn autokick_needs_a_known_user() {
    let players = Players::new(PlayerRecords::new("playerlist.json".to_string()), None);
    assert!(DumbAutoKick::kicks(&players, true).is_none());
    assert!(DumbAutoKick::kicks(&players, false).is_none());
}

#[test]
fn autokick_bots_on_users_team() {
    let base: u64 = 76561197960265728;
    let mut records = PlayerRecords::new("playerlist.json".to_string());
    for account in [1002u64, 1003] {
        let mut bot = PlayerRecord::new();
        bot.set_verdict(Verdict::Bot);
        records.records.insert(base + account, bot);
    }
    let mut players = Players::new(records, Some(base + 1001));
    let mut dump = String::new();
    for (slot, account, team) in [(1, 1001, 2), (2, 1002, 2), (3, 1003, 3)] {
        dump.push_str(&format!(
            "m_iTeam[{slot}] integer ({team})\nm_iAccountID[{slot}] integer ({account})\nm_bValid[{slot}] bool (true)\nm_iUserID[{slot}] integer ({})\n",
            10 + slot
        ));
    }
    players.handle_g15(Parser::parse_g15(&dump));
    let cmds = DumbAutoKick::kicks(&players, true).expect("user known");
    assert_eq!(cmds.len(), 1);
    assert!(matches!(&cmds[0], Command::Kick { player, reason } if player == "12" && *reason == KickReason::Cheating));
}

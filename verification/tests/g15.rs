use client_backend::console::{read_console_output, RawConsoleOutput};
use client_backend::io::g15::{g15_slots_in_range, G15Player, Parser};
use client_backend::player::Team;

fn dump_player(slot: usize, name: &str, userid: &str, account: &str) -> String {
    format!(
        "m_szName[{slot}] string ({name})\n\
         m_iPing[{slot}] integer (21)\n\
         m_iScore[{slot}] integer (16)\n\
         m_iDeaths[{slot}] integer (5)\n\
         m_bConnected[{slot}] bool (true)\n\
         m_iTeam[{slot}] integer (3)\n\
         m_bAlive[{slot}] bool (true)\n\
         m_iHealth[{slot}] integer (125)\n\
         m_iAccountID[{slot}] integer ({account})\n\
         m_bValid[{slot}] bool (true)\n\
         m_iUserID[{slot}] integer ({userid})\n\
         m_iAmmo[{slot}] integer (6)\n"
    )
}

fn check_full(p: &G15Player, name: &str, userid: &str, steamid: u64) {
    assert_eq!(p.name.as_deref(), Some(name));
    assert_eq!(p.userid.as_deref(), Some(userid));
    assert_eq!(p.ping, Some(21));
    assert_eq!(p.score, Some(16));
    assert_eq!(p.deaths, Some(5));
    assert_eq!(p.connected, Some(true));
    assert_eq!(p.team, Some(Team::Blu));
    assert_eq!(p.alive, Some(true));
    assert_eq!(p.health, Some(125));
    assert_eq!(p.ammo, Some(6));
    assert_eq!(p.valid, Some(true));
    assert_eq!(p.steamid, Some(steamid));
}

#[test]
fn test_normal() {
    let mut log = String::from("Server dump:\n");
    log.push_str(&dump_player(1, "Lilith", "301", "111216987"));
    log.push_str(&dump_player(2, "Lust", "302", "1505713148"));
    // A slot that is not valid is not reported.
    log.push_str("m_szName[3] string (Ghost)\nm_bValid[3] bool (false)\nm_iUserID[3] integer (303)\n");
    assert!(g15_slots_in_range(&log));
    let players = Parser::parse_g15(&log);
    assert_eq!(players.len(), 2);
    check_full(&players[0], "Lilith", "301", 76561198071482715);
    check_full(&players[1], "Lust", "302", 76561197960265728 + 1505713148);
}

#[test]
fn test_bad_int() {
    // Values that do not read are left out; the rest of the slot still reads.
    let log = "m_szName[4] string (Spy)\n\
               m_iPing[4] integer (99999999999)\n\
               m_iScore[4] integer (abc)\n\
               m_iTeam[4] integer (7)\n\
               m_bValid[4] bool (true)\n\
               m_iUserID[4] integer (44)\n";
    assert!(g15_slots_in_range(log));
    let players = Parser::parse_g15(log);
    assert_eq!(players.len(), 1);
    let p = &players[0];
    assert_eq!(p.name.as_deref(), Some("Spy"));
    assert_eq!(p.ping, None);
    assert_eq!(p.score, None);
    assert_eq!(p.team, None);
    assert_eq!(p.userid.as_deref(), Some("44"));
}

#[test]
fn test_bad_idx() {
    // Lines whose slot index does not read are left out.
    let log = "m_szName[x] string (Nobody)\n\
               m_bValid[] bool (true)\n\
               m_szName[5] string (Somebody)\n\
               m_bValid[5] bool (true)\n\
               m_iUserID[5] integer (55)\n";
    assert!(g15_slots_in_range(log));
    let players = Parser::parse_g15(log);
    assert_eq!(players.len(), 1);
    assert_eq!(players[0].name.as_deref(), Some("Somebody"));
    // A slot past the last one the game has is refused as a whole.
    let out_of_range = "m_szName[150] string (Far)\nm_bValid[150] bool (true)\n";
    assert!(!g15_slots_in_range(out_of_range));
    assert!(read_console_output(&RawConsoleOutput(out_of_range.to_string())).is_none());
}

#[test]
fn test_none() {
    assert!(Parser::parse_g15("").is_empty());
    // A user id of 0 is not a player.
    let log = "m_szName[0] string (unconnected)\nm_bValid[0] bool (true)\nm_iUserID[0] integer (0)\n";
    assert!(Parser::parse_g15(log).is_empty());
    // Valid but without a user id.
    let log = "m_szName[6] string (Half)\nm_bValid[6] bool (true)\n";
    assert!(Parser::parse_g15(log).is_empty());
}

#[test]
fn g15_later_line_wins_and_lines_are_trimmed() {
    let log = "  m_szName[7] string (First)  \n\
               m_szName[7] string (Second)\n\
               m_bValid[7] bool (true)\n\
               m_iUserID[7] integer (77)\n";
    let players = Parser::parse_g15(log);
    assert_eq!(players.len(), 1);
    assert_eq!(players[0].name.as_deref(), Some("Second"));
}

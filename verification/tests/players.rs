use std::collections::VecDeque;
use client_backend::console::{read_line, ConsoleOutput};
use client_backend::io::g15::Parser;
use client_backend::io::regexes::StatusLine;
use client_backend::json::JsonValue;
use client_backend::player::{Friend, GameInfo, PlayerState, Players, Team};
use client_backend::player_records::{PlayerRecord, PlayerRecords, Verdict};

fn status(line: &str) -> StatusLine {
    match read_line(line).remove(0) {
        ConsoleOutput::Status(s) => s,
        other => panic!("not a status line: {other:?}"),
    }
}

fn friend(id: u64) -> Friend {
    Friend {
        steamid: id,
        friend_since: 0,
    }
}

fn players(user: Option<u64>) -> Players {
    Players::new(PlayerRecords::new("playerlist.json".to_string()), user)
}

#[test]
fn friends_lists_are_two_way() {
    let mut p = players(Some(1));
    p.update_friends_list(2, vec![friend(1), friend(3)]);
    // 2 lists 1 and 3; both list 2 back.
    assert_eq!(p.are_friends(2, 3), Some(true));
    assert_eq!(p.are_friends(3, 2), Some(true));
    assert_eq!(p.are_friends(1, 2), Some(true));
    assert_eq!(p.is_friends_with_user(2), Some(true));
    assert!(p.has_tag(2, "Friend"));
    // 2's public list does not name 4: not friends, whichever way asked.
    assert_eq!(p.are_friends(2, 4), Some(false));
    assert_eq!(p.are_friends(4, 2), Some(false));
    // Nothing known of 4 and 5.
    assert_eq!(p.are_friends(4, 5), None);
    // 2 drops 3: 3 no longer lists 2.
    p.update_friends_list(2, vec![friend(1)]);
    assert_eq!(p.are_friends(3, 2), Some(false));
    assert_eq!(p.are_friends(2, 3), Some(false));
}

#[test]
fn private_friends_list_drops_stale_links() {
    let mut p = players(None);
    p.update_friends_list(2, vec![friend(3)]);
    // 3's list is only known from 2's (not public), so it goes stale.
    p.mark_friends_list_private(2);
    assert_eq!(p.friend_info.get(&2).map(|f| f.public), Some(Some(false)));
    assert_eq!(p.are_friends(2, 3), None);
}

#[test]
fn tags_set_and_clear() {
    let mut p = players(None);
    assert!(!p.has_tag(9, "Bot"));
    p.set_tag(9, "Bot".to_string());
    p.set_tag(9, "Bot".to_string());
    assert!(p.has_tag(9, "Bot"));
    assert_eq!(p.tags.get(&9).map(|t| t.len()), Some(1));
    p.clear_tag(9, "Bot");
    assert!(!p.has_tag(9, "Bot"));
}

#[test]
fn status_then_refresh_moves_old_players_to_history() {
    let mut p = players(None);
    p.handle_status_line(status("#    301 \"Lilith\" [U:1:111216987] 57:48 67 0 active"));
    let id = 76561198071482715;
    assert_eq!(p.connected, vec![id]);
    assert_eq!(p.get_name(id), Some("Lilith"));
    assert_eq!(p.get_steamid_from_name("Lilith"), Some(id));
    // Seven refreshes unseen: still on the server, disconnected after three.
    for k in 1..=7u32 {
        p.refresh();
        assert_eq!(p.connected, vec![id], "after {k} refreshes");
        assert_eq!(p.game_info.get(&id).map(|g| g.last_seen), Some(k));
    }
    assert_eq!(p.game_info.get(&id).map(|g| g.state), Some(PlayerState::Disconnected));
    assert!(p.history.is_empty());
    // The eighth finds the player unseen for more than six cycles and
    // moves it off the server, into the history.
    p.refresh();
    assert!(p.connected.is_empty());
    assert_eq!(p.history, VecDeque::from(vec![id]));
    // Seen again: back on the server, active.
    p.handle_status_line(status("#    301 \"Lilith\" [U:1:111216987] 57:50 67 0 active"));
    assert_eq!(p.connected, vec![id]);
    assert_eq!(p.game_info.get(&id).map(|g| (g.last_seen, g.state)), Some((0, PlayerState::Active)));
}

#[test]
fn g15_updates_game_info() {
    let mut p = players(None);
    let dump = "m_szName[1] string (Lilith)\nm_iTeam[1] integer (2)\nm_iScore[1] integer (9)\nm_iAccountID[1] integer (111216987)\nm_bValid[1] bool (true)\nm_iUserID[1] integer (301)\n";
    p.handle_g15(Parser::parse_g15(dump));
    let id = 76561198071482715;
    assert_eq!(p.connected, vec![id]);
    let gi = p.game_info.get(&id).expect("known");
    assert_eq!(gi.name, "Lilith");
    assert_eq!(gi.team, Team::Red);
    assert_eq!(gi.kills, 9);
    assert_eq!(gi.userid, "301");
}

#[test]
fn game_info_cycles() {
    let mut g = GameInfo::new();
    assert_eq!(g.last_seen, 0);
    for _ in 0..6 {
        g.next_cycle();
        assert!(!g.should_prune());
    }
    g.next_cycle();
    assert!(g.should_prune());
    assert_eq!(g.state, PlayerState::Disconnected);
}

#[test]
fn names_fall_back_to_steam_then_records() {
    let mut records = PlayerRecords::new("playerlist.json".to_string());
    let mut r = PlayerRecord::new();
    r.add_previous_name("Old");
    r.add_previous_name("Old");
    r.add_previous_name("Older");
    assert_eq!(r.previous_names(), &["Old".to_string(), "Older".to_string()]);
    records.records.insert(5, r);
    let p = Players::new(records, None);
    assert_eq!(p.get_name(5), Some("Old"));
    assert_eq!(p.get_name(6), None);
    assert_eq!(p.verdict(5), Verdict::Player);
}

#[test]
fn serializable_player_of_unknown_and_user() {
    let mut records = PlayerRecords::new("playerlist.json".to_string());
    let mut r = PlayerRecord::new();
    r.set_verdict(Verdict::Cheater);
    records.records.insert(7, r);
    let mut p = Players::new(records, Some(7));
    p.set_tag(7, "Bot".to_string());
    p.update_friends_list(7, vec![friend(8)]);
    let shown = p.get_serializable_player(7);
    assert!(shown.is_self);
    assert_eq!(shown.name, "");
    assert_eq!(shown.local_verdict, Verdict::Cheater);
    assert_eq!(shown.tags, vec!["Bot"]);
    assert_eq!(shown.friends.len(), 1);
    assert_eq!(shown.friends_is_public, Some(true));
    assert!(!shown.convicted);
    let other = p.get_serializable_player(99);
    assert!(!other.is_self);
    assert_eq!(other.local_verdict, Verdict::Player);
    assert!(matches!(other.custom_data, JsonValue::Object(ref fs) if fs.is_empty()));
    assert!(other.friends.is_empty());
    assert_eq!(other.friends_is_public, None);
}

#[test]
fn records_prune_keeps_only_meaningful() {
    let mut records = PlayerRecords::new("playerlist.json".to_string());
    records.records.insert(1, PlayerRecord::new());
    let mut marked = PlayerRecord::new();
    marked.set_verdict(Verdict::Suspicious);
    records.records.insert(2, marked);
    let mut noted = PlayerRecord::new();
    noted.set_custom_data(JsonValue::Object(vec![("note".to_string(), JsonValue::Str("hi".to_string()))]));
    records.records.insert(3, noted);
    records.prune();
    let mut keys: Vec<u64> = records.records.keys().copied().collect();
    keys.sort();
    assert_eq!(keys, vec![2, 3]);
}

#[test]
fn records_update_name_keeps_old_names() {
    let mut records = PlayerRecords::new("playerlist.json".to_string());
    let mut r = PlayerRecord::new();
    r.name = "First".to_string();
    records.records.insert(1, r);
    records.update_name(1, "Second");
    let r = records.records.get(&1).expect("kept");
    assert_eq!(r.name, "Second");
    assert_eq!(r.previous_names(), &["Second".to_string()]);
    // Unknown players get no record.
    records.update_name(2, "Nobody");
    assert!(!records.records.contains_key(&2));
}

#[test]
fn verdict_names() {
    assert_eq!(Verdict::default(), Verdict::Player);
    assert_eq!(Verdict::Cheater.to_string(), "Cheater");
    assert_eq!(Verdict::Trusted.to_string(), "Trusted");
    assert_eq!(Team::try_from_u32(3), Some(Team::Blu));
    assert_eq!(Team::try_from_u32(4), None);
    assert_eq!(Team::Spectators.number(), 1);
}

#[test]
fn fetched_friends_list_is_stored_as_it_came() {
    let mut p = players(Some(1));
    p.update_friends_list(2, vec![friend(3), friend(4)]);
    let list = vec![
        Friend { steamid: 4, friend_since: 1_600_000_000 },
        Friend { steamid: 5, friend_since: 1_700_000_000 },
    ];
    p.update_friends_list(2, list);
    let stored: Vec<(u64, u64)> = p.friend_info.get(&2).expect("stored").friends.iter().map(|f| (f.steamid, f.friend_since)).collect();
    assert_eq!(stored, vec![(4, 1_600_000_000), (5, 1_700_000_000)]);
    assert_eq!(p.are_friends(3, 2), Some(false));
    assert_eq!(p.are_friends(5, 2), Some(true));
}

use std::collections::VecDeque;
use client_backend::console::{read_line, ConsoleOutput};
use client_backend::player::{Players, ProfileVisibility, SteamInfo};
use client_backend::player_records::PlayerRecords;
use client_backend::steam_api::SteamAPIError;
use client_backend::time::Timestamp;
use client_backend::web::{
    get_history, guess_content_type, history_page, post_user_players, Pagination, WebAPIHandler,
};

fn info(name: &str) -> SteamInfo {
    SteamInfo {
        account_name: name.to_string(),
        profile_url: String::new(),
        pfp_url: String::new(),
        pfp_hash: String::new(),
        profile_visibility: ProfileVisibility::Public,
        time_created: None,
        country_code: None,
        vac_bans: 0,
        game_bans: 0,
        days_since_last_ban: None,
        playtime: None,
        fetched: Timestamp { secs: 0, nanos: 0 },
    }
}

#[test]
fn content_types() {
    assert_eq!(guess_content_type(Some("html")), "text/html");
    assert_eq!(guess_content_type(Some("htm")), "text/html");
    assert_eq!(guess_content_type(Some("js")), "text/javascript");
    assert_eq!(guess_content_type(Some("css")), "text/css");
    assert_eq!(guess_content_type(Some("jpeg")), "image/jpeg");
    assert_eq!(guess_content_type(Some("webp")), "image/webp");
    assert_eq!(guess_content_type(Some("otf")), "font/otf");
    assert_eq!(guess_content_type(Some("exe")), "application/octet-stream");
    assert_eq!(guess_content_type(None), "application/octet-stream");
}

#[test]
fn history_pages() {
    let h = VecDeque::from(vec![1u64, 2, 3, 4, 5]);
    let d = Pagination::default();
    assert_eq!((d.from, d.to), (0, 100));
    assert_eq!(history_page(&h, &d), vec![5, 4, 3, 2, 1]);
    assert_eq!(history_page(&h, &Pagination { from: 1, to: 3 }), vec![4, 3]);
    assert_eq!(history_page(&h, &Pagination { from: 4, to: 9 }), vec![1]);
    assert!(history_page(&h, &Pagination { from: 7, to: 9 }).is_empty());
    assert!(history_page(&h, &Pagination { from: 2, to: 2 }).is_empty());
}

#[test]
fn history_players_most_recent_first() {
    let mut p = Players::new(PlayerRecords::new("p.json".to_string()), None);
    p.history = VecDeque::from(vec![10, 11]);
    let shown = get_history(&p, &Pagination::default());
    assert_eq!(shown.len(), 2);
    assert_eq!(shown[0].steamid, 11);
    assert_eq!(shown[1].steamid, 10);
}

#[test]
fn post_user_waits_for_lookups() {
    let mut p = Players::new(PlayerRecords::new("p.json".to_string()), None);
    p.steam_info.insert(1, info("known"));
    let mut h = WebAPIHandler::new();
    // No key: nothing happens.
    assert!(h.handle_post_user_request(&p, "", 7, &[1, 2]).is_none());
    assert!(h.post_user_queue.is_empty());
    // 1 is known and not being looked up: looked up again; 2 unknown.
    let out = h.handle_post_user_request(&p, "KEY", 7, &[1, 2]).expect("key set");
    assert_eq!(out.lookups, vec![vec![1, 2]]);
    assert!(out.ready.is_empty());
    assert_eq!(h.profile_requests_in_progress, vec![1, 2]);
    // A second request for 1 only: 1 is known and being looked up, so it
    // waits on nothing and is answered at once.
    let out = h.handle_post_user_request(&p, "KEY", 8, &[1]).expect("key set");
    assert!(out.lookups.is_empty());
    assert_eq!(out.ready.len(), 1);
    assert_eq!(out.ready[0].token, 8);
    assert_eq!(h.post_user_queue.len(), 1);
    // The lookups come back: 1 found, 2 failed.
    let ready = h.handle_profile_lookup(&Ok(vec![(1, Ok(info("fresh"))), (2, Err(SteamAPIError::MissingSummary(2)))]));
    assert!(ready.is_empty());
    assert_eq!(h.post_user_queue[0].waiting_users, vec![2]);
    assert!(h.profile_requests_in_progress.is_empty());
    // The batch fails: everyone is answered with what there is.
    let ready = h.handle_profile_lookup(&Err(SteamAPIError::RequestFailed));
    assert_eq!(ready.len(), 1);
    assert_eq!(ready[0].token, 7);
    assert!(h.post_user_queue.is_empty());
    let answered = post_user_players(&p, &ready[0].users);
    assert_eq!(answered.len(), 2);
    assert_eq!(answered[0].name, "fresh");
    assert_eq!(answered[0].steam_info.map(|s| s.account_name.as_str()), Some("fresh"));
    assert_eq!(answered[1].name, "");
    assert!(answered[1].steam_info.is_none());
}

#[test]
fn post_user_batches_of_a_hundred() {
    let p = Players::new(PlayerRecords::new("p.json".to_string()), None);
    let ids: Vec<u64> = (1..=250).collect();
    let mut h = WebAPIHandler::new();
    let out = h.handle_post_user_request(&p, "KEY", 1, &ids).expect("key set");
    assert_eq!(out.lookups.len(), 3);
    assert_eq!(out.lookups[0].len(), 100);
    assert_eq!(out.lookups[2], (201..=250).collect::<Vec<u64>>());
}

#[test]
fn status_player_in_history_page() {
    let mut p = Players::new(PlayerRecords::new("p.json".to_string()), None);
    if let ConsoleOutput::Status(s) = read_line("#    301 \"Lilith\" [U:1:111216987] 57:48 67 0 active").remove(0) {
        p.handle_status_line(s);
    }
    for _ in 0..8 {
        p.refresh();
    }
    let shown = get_history(&p, &Pagination { from: 0, to: 1 });
    assert_eq!(shown.len(), 1);
    assert_eq!(shown[0].name, "Lilith");
}

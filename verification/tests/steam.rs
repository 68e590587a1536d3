use std::collections::HashMap;

use client_backend::player::{Friend, Players, ProfileVisibility, SteamInfo};
use client_backend::player_records::PlayerRecords;
use client_backend::steam_api::{
    apply_friend_result, apply_profile_results, build_steam_infos, playtime_from_games,
    LookupFriends, LookupProfiles, PlayerBans, PlayerSummary, SteamAPIError, BATCH_SIZE,
};
use client_backend::settings::FriendsAPIUsage;
use client_backend::player_records::Verdict;
use client_backend::steamid::{from_steam2, from_steam3, steam2_of, steam3_of};
use client_backend::time::Timestamp;

fn summary(id: u64, name: &str) -> PlayerSummary {
    PlayerSummary {
        steam_id: id,
        persona_name: name.to_string(),
        profile_url: "url".to_string(),
        avatar_full: "full".to_string(),
        avatar_hash: "hash".to_string(),
        community_visibility_state: 3,
        time_created: Some(1),
        loc_country_code: Some("AU".to_string()),
    }
}

fn bans(id: u64, vac: i64) -> PlayerBans {
    PlayerBans {
        steam_id: id.to_string(),
        number_of_vac_bans: vac,
        number_of_game_bans: 0,
        days_since_last_ban: 12,
    }
}

#[test]
fn steam_infos_from_answers() {
    let t = Timestamp { secs: 100, nanos: 0 };
    let out = build_steam_infos(
        &[1, 2, 3],
        &vec![summary(1, "one"), summary(2, "two")],
        &vec![bans(1, 0), bans(2, 1)],
        &vec![(1, Ok(55)), (2, Err(SteamAPIError::GameNotOwned))],
        t,
    );
    assert_eq!(out.len(), 3);
    match &out[0] {
        (1, Ok(si)) => {
            assert_eq!(si.account_name, "one");
            assert_eq!(si.profile_visibility, ProfileVisibility::Public);
            assert_eq!(si.days_since_last_ban, None);
            assert_eq!(si.playtime, Some(55));
            assert_eq!(si.country_code.as_deref(), Some("AU"));
            assert_eq!(si.fetched, t);
        }
        other => panic!("unexpected {other:?}"),
    }
    match &out[1] {
        (2, Ok(si)) => {
            assert_eq!(si.vac_bans, 1);
            assert_eq!(si.days_since_last_ban, Some(12));
            assert_eq!(si.playtime, None);
        }
        other => panic!("unexpected {other:?}"),
    }
    assert!(matches!(&out[2], (3, Err(SteamAPIError::MissingSummary(3)))));
}

#[test]
fn playtime_of_tf2() {
    assert_eq!(playtime_from_games(&[(10, 5), (440, 1234), (440, 1)]), Ok(1234));
    assert_eq!(playtime_from_games(&[(10, 5)]), Err(SteamAPIError::GameNotOwned));
}

#[test]
fn profile_batches() {
    let mut l = LookupProfiles::new();
    let ids: Vec<u64> = (1..=25).collect();
    l.enqueue(&ids, "KEY");
    let mut known: HashMap<u64, SteamInfo> = HashMap::new();
    let now = Timestamp { secs: 10 * 3600, nanos: 0 };
    let mut fresh_info = None;
    let out = build_steam_infos(&[3], &vec![summary(3, "three")], &vec![bans(3, 0)], &vec![], Timestamp { secs: 9 * 3600, nanos: 0 });
    if let Some((_, Ok(si))) = out.into_iter().next() {
        fresh_info = Some(si);
    }
    known.insert(3, fresh_info.expect("built"));
    let batch = l.take_batch(&known, now, "KEY");
    assert_eq!(batch.len(), BATCH_SIZE);
    assert!(!batch.contains(&3));
    assert_eq!(batch[0], 1);
    assert_eq!(l.in_progress, batch);
    // Asked again while in progress: dropped.
    l.enqueue(&[1, 2], "KEY");
    let batch2 = l.take_batch(&known, now, "KEY");
    assert_eq!(batch2, (22..=25).collect::<Vec<u64>>());
    l.on_api_key_change("", &[5]);
    assert!(l.batch_buffer.is_empty());
    l.on_api_key_change("KEY", &[5, 6]);
    assert_eq!(l.batch_buffer, vec![5, 6]);
}

#[test]
fn results_update_players() {
    let mut p = Players::new(PlayerRecords::new("p.json".to_string()), None);
    let infos = build_steam_infos(&[1], &vec![summary(1, "one")], &vec![bans(1, 0)], &vec![], Timestamp { secs: 0, nanos: 0 });
    apply_profile_results(&mut p, infos);
    assert_eq!(p.get_name(1), Some("one"));
    apply_friend_result(&mut p, 1, Ok(vec![Friend { steamid: 2, friend_since: 0 }]));
    assert_eq!(p.are_friends(2, 1), Some(true));
    apply_friend_result(&mut p, 1, Err(SteamAPIError::RequestFailed));
    assert_eq!(p.friend_info.get(&1).map(|f| f.public), Some(Some(false)));
}

#[test]
fn steamid_text_forms() {
    let id = 76561198071482715u64;
    assert_eq!(steam3_of(id).as_deref(), Some("[U:1:111216987]"));
    assert_eq!(steam2_of(id).as_deref(), Some("STEAM_1:1:55608493"));
    assert_eq!(from_steam3("[U:1:111216987]"), Some(id));
    assert_eq!(from_steam2("STEAM_1:1:55608493"), Some(id));
    assert_eq!(from_steam3("garbage"), None);
    assert_eq!(from_steam2("garbage"), None);
    assert_eq!(steam3_of(u64::MAX), None);
}

#[test]
fn no_lookups_without_api_key() {
    let mut l = LookupProfiles::new();
    l.enqueue(&[1, 2], "");
    assert!(l.batch_buffer.is_empty());
    l.enqueue(&[1, 2], "KEY");
    let known: HashMap<u64, SteamInfo> = HashMap::new();
    let now = Timestamp { secs: 0, nanos: 0 };
    assert!(l.take_batch(&known, now, "").is_empty());
    assert_eq!(l.batch_buffer, vec![1, 2]);
    assert!(l.in_progress.is_empty());

    let players = Players::new(PlayerRecords::new("p.json".to_string()), Some(1));
    let mut f = LookupFriends::new();
    assert!(f.handle_players(&players, Some(1), &[1, 2], FriendsAPIUsage::All, "", false).is_empty());
    assert!(f.in_progress.is_empty());
    assert_eq!(f.handle_players(&players, Some(1), &[1, 2], FriendsAPIUsage::All, "KEY", false), vec![1, 2]);
    assert_eq!(f.in_progress, vec![1, 2]);
    // Without a key a finished lookup changes nothing.
    assert!(f.on_result(&players, Some(1), FriendsAPIUsage::All, "", 1, false).is_empty());
    assert_eq!(f.in_progress, vec![1, 2]);
    // With one, only the answered id leaves the lookups in progress.
    assert!(f.on_result(&players, Some(1), FriendsAPIUsage::All, "KEY", 1, false).is_empty());
    assert_eq!(f.in_progress, vec![2]);
    assert!(f.on_user_update(&players, Some(1), FriendsAPIUsage::All, "", 3, Some(Verdict::Cheater)).is_empty());
}

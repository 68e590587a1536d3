use client_backend::events::{InternalPreferences, Preferences};
use client_backend::json::JsonValue;
use client_backend::launchoptions::{local_config_path, LaunchOptions, LaunchOptionsError};
use client_backend::settings::{latest_steam_user, Args, FriendsAPIUsage, Settings};

fn no_args() -> Args {
    Args {
        port: None,
        config: None,
        playerlist: None,
        tf2_dir: None,
        steam_user: None,
        rcon_pword: None,
        rcon_port: None,
        api_key: None,
        mb_key: None,
        mb_host: None,
        autolaunch_ui: false,
        minimal_demo_parsing: false,
        dont_parse_demos: false,
        dont_upload_demos: false,
        masterbase_http: false,
        print_votes: false,
        web_dir: None,
    }
}

#[test]
fn default_settings() {
    let s = Settings::new_default(Some("config.yaml".to_string()), Some(5));
    assert_eq!(s.get_rcon_password(), "mac_rcon");
    assert_eq!(s.get_rcon_port(), 27015);
    assert_eq!(s.get_port(), 3621);
    assert_eq!(s.get_steam_api_key(), "YOUR_API_KEY_HERE");
    assert_eq!(s.get_friends_api_usage(), FriendsAPIUsage::CheatersOnly);
    assert_eq!(s.get_steam_user(), Some(5));
    assert_eq!(s.get_config_path().map(|p| p.as_str()), Some("config.yaml"));
    assert!(!s.get_autolaunch_ui());
}

#[test]
fn overrides_win_over_settings() {
    let mut s = Settings::new_default(None, None);
    let mut args = no_args();
    args.port = Some(4000);
    args.rcon_pword = Some("secret".to_string());
    args.api_key = Some("KEY".to_string());
    args.tf2_dir = Some("/games/tf2".to_string());
    args.dont_upload_demos = true;
    s.set_overrides(&args);
    assert_eq!(s.get_port(), 4000);
    assert_eq!(s.get_rcon_password(), "secret");
    assert_eq!(s.get_steam_api_key(), "KEY");
    assert_eq!(s.get_tf2_directory(), "/games/tf2");
    assert!(!s.upload_demos);
    // Setting the base values does not undo the overrides.
    s.set_port(5000);
    s.set_rcon_password("other".to_string());
    assert_eq!(s.get_port(), 4000);
    assert_eq!(s.get_rcon_password(), "secret");
    s.set_tf2_directory("/elsewhere".to_string());
    assert_eq!(s.get_tf2_directory(), "/games/tf2");
}

#[test]
fn preferences_apply() {
    let mut s = Settings::new_default(None, None);
    let prefs = Preferences {
        internal: Some(InternalPreferences {
            friends_api_usage: Some(FriendsAPIUsage::All),
            tf2_directory: None,
            rcon_password: Some("pw".to_string()),
            steam_api_key: Some("abc".to_string()),
            masterbase_key: None,
            masterbase_host: None,
            rcon_port: Some(27069),
            dumb_autokick: Some(true),
            tos_agreement_date: Some("2024-01-02T03:04:05Z".to_string()),
        }),
        external: Some(JsonValue::Object(vec![(
            "theme".to_string(),
            JsonValue::Str("dark".to_string()),
        )])),
    };
    prefs.apply(&mut s);
    assert_eq!(s.get_friends_api_usage(), FriendsAPIUsage::All);
    assert_eq!(s.get_rcon_password(), "pw");
    assert_eq!(s.get_steam_api_key(), "abc");
    assert_eq!(s.get_rcon_port(), 27069);
    assert!(s.autokick_bots);
    assert_eq!(s.tos_agreement_date.map(|t| t.secs), Some(1704164645));
    match s.get_external_preferences() {
        JsonValue::Object(fs) => assert_eq!(fs.len(), 1),
        _ => panic!("object"),
    }
    // An empty date clears the agreement.
    let clear = Preferences {
        internal: Some(InternalPreferences {
            friends_api_usage: None,
            tf2_directory: None,
            rcon_password: None,
            steam_api_key: None,
            masterbase_key: None,
            masterbase_host: None,
            rcon_port: None,
            dumb_autokick: None,
            tos_agreement_date: Some(String::new()),
        }),
        external: None,
    };
    clear.apply(&mut s);
    assert!(s.tos_agreement_date.is_none());
    assert_eq!(s.get_rcon_password(), "pw");
}

#[test]
fn latest_login_wins() {
    let text = "\"users\"\n{\n\t\"76561198071482715\"\n\t{\n\t\t\"AccountName\"\t\"a\"\n\t\t\"Timestamp\"\t\"1700000000\"\n\t}\n\t\"76561197960265729\"\n\t{\n\t\t\"AccountName\"\t\"b\"\n\t\t\"Timestamp\"\t\"1710000000\"\n\t}\n}\n";
    assert_eq!(latest_steam_user(text), Some(76561197960265729));
    assert_eq!(latest_steam_user("not vdf {"), None);
    assert_eq!(latest_steam_user("\"users\" { }"), None);
}

#[test]
fn launch_options_missing() {
    let text = "\"UserLocalConfigStore\"\n{\n\t\"Software\"\n\t{\n\t\t\"Valve\"\n\t\t{\n\t\t\t\"Steam\"\n\t\t\t{\n\t\t\t\t\"apps\"\n\t\t\t\t{\n\t\t\t\t\t\"440\"\n\t\t\t\t\t{\n\t\t\t\t\t\t\"LaunchOptions\"\t\"-novid -condebug -usercon\"\n\t\t\t\t\t}\n\t\t\t\t}\n\t\t\t}\n\t\t}\n\t}\n}\n";
    let opts = LaunchOptions::from_localconfig(text).expect("launch options found");
    let missing = opts.check_missing_args();
    assert_eq!(missing, vec!["-conclearlog", "-g15"]);
    assert!(matches!(
        LaunchOptions::from_localconfig("\"UserLocalConfigStore\" { }"),
        Err(LaunchOptionsError::NotFound)
    ));
    assert_eq!(local_config_path(76561198071482715), "userdata/111216987/config/localconfig.vdf");
}

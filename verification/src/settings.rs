//! The user's settings: those saved in the configuration file, those given
//! on the command line, and the preferences of the web interface.
use vstd::prelude::*;

use crate::json::{is_merge, merge_json_objects, well_formed, JsonValue};
use crate::text::{parse_i64, parse_u64, spec_parse_i64, spec_parse_u64};
use crate::time::Timestamp;
use crate::vdf::{entries_view, first_under, first_value, node_of, parse_vdf, spec_parse_vdf, VdfNode, VdfValue};

verus! {

/// The command-line arguments.
#[derive(Debug, Clone)]
pub struct Args {
    /// Port for the web interface and API.
    pub port: Option<u16>,
    /// Configuration file to use.
    pub config: Option<String>,
    /// Playerlist file to use.
    pub playerlist: Option<String>,
    /// TF2 directory.
    pub tf2_dir: Option<String>,
    /// The Steam user.
    pub steam_user: Option<String>,
    /// RCON password.
    pub rcon_pword: Option<String>,
    /// RCON port of the game.
    pub rcon_port: Option<u16>,
    /// Steam Web API key.
    pub api_key: Option<String>,
    /// Masterbase key.
    pub mb_key: Option<String>,
    /// Masterbase host.
    pub mb_host: Option<String>,
    /// Open the web interface in the browser at startup.
    pub autolaunch_ui: bool,
    /// Parse only what demo uploads need.
    pub minimal_demo_parsing: bool,
    /// Neither watch nor parse demos.
    pub dont_parse_demos: bool,
    /// Do not upload demos.
    pub dont_upload_demos: bool,
    /// Talk to the masterbase over plain http.
    pub masterbase_http: bool,
    /// Print the votes found in demos.
    pub print_votes: bool,
    /// Serve the web interface from this directory.
    pub web_dir: Option<String>,
}

/// When the Steam Web API's friends lists are looked up.
#[derive(Debug, Clone, Copy, PartialEq, Eq, Structural)]
pub enum FriendsAPIUsage {
    /// Never.
    Disabled,
    /// For players marked as cheaters.
    CheatersOnly,
    /// For every player.
    All,
}

/// The settings.
#[derive(Debug)]
pub struct Settings {
    pub config_path: Option<String>,
    pub steam_user: Option<u64>,
    pub tf2_directory: String,
    pub friends_api_usage: FriendsAPIUsage,
    pub rcon_password: String,
    pub rcon_port: u16,
    pub steam_api_key: String,
    pub masterbase_key: String,
    pub masterbase_host: String,
    pub use_masterbase_http: bool,
    pub upload_demos: bool,
    pub minimal_demo_parsing: bool,
    pub autokick_bots: bool,
    pub custom_commands_enabled: bool,
    pub tos_agreement_date: Option<Timestamp>,
    pub port: u16,
    pub autolaunch_ui: bool,
    pub external: JsonValue,
    pub override_tf2_dir: Option<String>,
    pub override_rcon_password: Option<String>,
    pub override_rcon_port: Option<u16>,
    pub override_steam_api_key: Option<String>,
    pub override_port: Option<u16>,
    pub override_steam_user: Option<u64>,
}

/// The value in use: the override where there is one.
pub open spec fn effective<T>(o: Option<T>, base: T) -> T {
    match o {
        Some(v) => v,
        None => base,
    }
}

/// The text of an optional string.
pub open spec fn opt_text(o: Option<String>) -> Option<Seq<char>> {
    match o {
        Some(s) => Some(s@),
        None => None,
    }
}

/// The text in use: the override where there is one.
pub open spec fn effective_text(o: Option<String>, base: String) -> Seq<char> {
    match o {
        Some(v) => v@,
        None => base@,
    }
}

impl Settings {
    /// Whether the external preferences are well formed.
    pub open spec fn wf(&self) -> bool {
        well_formed(self.external)
    }

    /// The settings of a new configuration, kept at `config_path`, for the
    /// Steam user `steam_user`: RCON password `mac_rcon` on port 27015, no
    /// API key, friends looked up for cheaters only, the web interface on
    /// port 3621 and not opened at startup, no overrides.
    pub fn new_default(config_path: Option<String>, steam_user: Option<u64>) -> (s: Settings)
        ensures
            s.wf(),
            opt_text(s.config_path) == opt_text(config_path),
            s.steam_user == steam_user,
            s.tf2_directory@.len() == 0,
            s.rcon_password@ == "mac_rcon"@,
            s.rcon_port == 27015,
            s.steam_api_key@ == "YOUR_API_KEY_HERE"@,
            s.friends_api_usage == FriendsAPIUsage::CheatersOnly,
            s.port == 3621,
            !s.autolaunch_ui,
            s.external matches JsonValue::Object(fs) && fs@.len() == 0,
            s.override_tf2_dir is None && s.override_rcon_password is None && s.override_rcon_port is None,
            s.override_steam_api_key is None && s.override_port is None && s.override_steam_user is None,
    {
        Settings {
            config_path,
            steam_user,
            tf2_directory: String::new(),
            friends_api_usage: FriendsAPIUsage::CheatersOnly,
            rcon_password: "mac_rcon".to_string(),
            rcon_port: 27015,
            steam_api_key: "YOUR_API_KEY_HERE".to_string(),
            masterbase_key: String::new(),
            masterbase_host: "megaanticheat.com".to_string(),
            use_masterbase_http: false,
            upload_demos: true,
            minimal_demo_parsing: false,
            autokick_bots: false,
            custom_commands_enabled: false,
            tos_agreement_date: None,
            port: 3621,
            autolaunch_ui: false,
            external: JsonValue::Object(Vec::new()),
            override_tf2_dir: None,
            override_rcon_password: None,
            override_rcon_port: None,
            override_steam_api_key: None,
            override_port: None,
            override_steam_user: None,
        }
    }

    /// Takes the overrides the command line gives: web port, RCON password
    /// and port, Steam API key and TF2 directory; the demo switches are
    /// taken as they are.
    pub fn set_overrides(&mut self, args: &Args)
        ensures
            final(self).override_port == args.port,
            opt_text(final(self).override_rcon_password) == opt_text(args.rcon_pword),
            final(self).override_rcon_port == args.rcon_port,
            opt_text(final(self).override_steam_api_key) == opt_text(args.api_key),
            opt_text(final(self).override_tf2_dir) == opt_text(args.tf2_dir),
            final(self).minimal_demo_parsing == args.minimal_demo_parsing,
            final(self).upload_demos == !args.dont_upload_demos,
            final(self).use_masterbase_http == args.masterbase_http,
            final(self).external == old(self).external,
    {
        self.override_port = args.port;
        self.override_rcon_password = copy_opt(&args.rcon_pword);
        self.override_rcon_port = args.rcon_port;
        self.override_steam_api_key = copy_opt(&args.api_key);
        self.override_tf2_dir = copy_opt(&args.tf2_dir);
        self.minimal_demo_parsing = args.minimal_demo_parsing;
        self.upload_demos = !args.dont_upload_demos;
        self.use_masterbase_http = args.masterbase_http;
    }

    /// The Steam user: the override where there is one.
    pub fn get_steam_user(&self) -> (r: Option<u64>)
        ensures
            r == match self.override_steam_user {
                Some(u) => Some(u),
                None => self.steam_user,
            },
    {
        match self.override_steam_user {
            Some(u) => Some(u),
            None => self.steam_user,
        }
    }

    /// The configuration file.
    pub fn get_config_path(&self) -> (r: Option<&String>)
        ensures
            match r {
                Some(p) => self.config_path == Some(*p),
                None => self.config_path is None,
            },
    {
        match &self.config_path {
            Some(p) => Some(p),
            None => None,
        }
    }

    /// The TF2 directory: the override where there is one.
    pub fn get_tf2_directory(&self) -> (r: &str)
        ensures
            r@ == effective_text(self.override_tf2_dir, self.tf2_directory),
    {
        match &self.override_tf2_dir {
            Some(d) => d.as_str(),
            None => self.tf2_directory.as_str(),
        }
    }

    /// The RCON password: the override where there is one.
    pub fn get_rcon_password(&self) -> (r: String)
        ensures
            r@ == effective_text(self.override_rcon_password, self.rcon_password),
    {
        match &self.override_rcon_password {
            Some(p) => p.clone(),
            None => self.rcon_password.clone(),
        }
    }

    /// The RCON port: the override where there is one.
    pub fn get_rcon_port(&self) -> (r: u16)
        ensures
            r == effective(self.override_rcon_port, self.rcon_port),
    {
        match self.override_rcon_port {
            Some(p) => p,
            None => self.rcon_port,
        }
    }

    /// The web interface's port: the override where there is one.
    pub fn get_port(&self) -> (r: u16)
        ensures
            r == effective(self.override_port, self.port),
    {
        match self.override_port {
            Some(p) => p,
            None => self.port,
        }
    }

    /// The Steam Web API key: the override where there is one.
    pub fn get_steam_api_key(&self) -> (r: String)
        ensures
            r@ == effective_text(self.override_steam_api_key, self.steam_api_key),
    {
        match &self.override_steam_api_key {
            Some(k) => k.clone(),
            None => self.steam_api_key.clone(),
        }
    }

    /// The web interface's own preferences.
    pub fn get_external_preferences(&self) -> (r: &JsonValue)
        ensures
            *r == self.external,
    {
        &self.external
    }

    /// Sets the TF2 directory.
    pub fn set_tf2_directory(&mut self, dir: String)
        ensures
            *final(self) == (Settings { tf2_directory: dir, ..*old(self) }),
    {
        self.tf2_directory = dir;
    }

    /// Sets the RCON password.
    pub fn set_rcon_password(&mut self, pwd: String)
        ensures
            *final(self) == (Settings { rcon_password: pwd, ..*old(self) }),
    {
        self.rcon_password = pwd;
    }

    /// Sets the RCON port.
    pub fn set_rcon_port(&mut self, port: u16)
        ensures
            *final(self) == (Settings { rcon_port: port, ..*old(self) }),
    {
        self.rcon_port = port;
    }

    /// Sets the web interface's port.
    pub fn set_port(&mut self, port: u16)
        ensures
            *final(self) == (Settings { port: port, ..*old(self) }),
    {
        self.port = port;
    }

    /// Whether to open the web interface at startup.
    pub fn get_autolaunch_ui(&self) -> (b: bool)
        ensures
            b == self.autolaunch_ui,
    {
        self.autolaunch_ui
    }

    /// Sets the Steam Web API key.
    pub fn set_steam_api_key(&mut self, key: String)
        ensures
            *final(self) == (Settings { steam_api_key: key, ..*old(self) }),
    {
        self.steam_api_key = key;
    }

    /// Sets the masterbase key.
    pub fn set_masterbase_key(&mut self, key: String)
        ensures
            *final(self) == (Settings { masterbase_key: key, ..*old(self) }),
    {
        self.masterbase_key = key;
    }

    /// Sets the masterbase host.
    pub fn set_masterbase_host(&mut self, host: String)
        ensures
            *final(self) == (Settings { masterbase_host: host, ..*old(self) }),
    {
        self.masterbase_host = host;
    }

    /// Sets whether bots on the user's team are kicked.
    pub fn set_autokick_bots(&mut self, autokick: bool)
        ensures
            *final(self) == (Settings { autokick_bots: autokick, ..*old(self) }),
    {
        self.autokick_bots = autokick;
    }

    /// Sets when the user agreed to the terms of service.
    pub fn set_tos_agreement_date(&mut self, date: Option<Timestamp>)
        ensures
            *final(self) == (Settings { tos_agreement_date: date, ..*old(self) }),
    {
        self.tos_agreement_date = date;
    }

    /// Merges `prefs` into the web interface's preferences (see
    /// `merge_json_objects`).
    pub fn update_external_preferences(&mut self, prefs: JsonValue)
        requires
            old(self).wf(),
            well_formed(prefs),
        ensures
            final(self).wf(),
            (old(self).external is Object && prefs is Object) ==> is_merge(old(self).external, prefs, final(self).external),
            !(old(self).external is Object && prefs is Object) ==> final(self).external == old(self).external,
            *final(self) == (Settings { external: final(self).external, ..*old(self) }),
    {
        merge_json_objects(&mut self.external, prefs);
    }

    /// Keeps the configuration at `config` from now on.
    pub fn set_config_path(&mut self, config: String)
        ensures
            opt_text(final(self).config_path) == Some(config@),
            final(self).external == old(self).external,
    {
        self.config_path = Some(config);
    }

    /// Sets when friends lists are looked up.
    pub fn set_friends_api_usage(&mut self, friends_api_usage: FriendsAPIUsage)
        ensures
            *final(self) == (Settings { friends_api_usage: friends_api_usage, ..*old(self) }),
    {
        self.friends_api_usage = friends_api_usage;
    }

    /// When friends lists are looked up.
    pub fn get_friends_api_usage(&self) -> (r: FriendsAPIUsage)
        ensures
            r == self.friends_api_usage,
    {
        self.friends_api_usage
    }
}

/// A copy of an optional string.
fn copy_opt(o: &Option<String>) -> (r: Option<String>)
    ensures
        opt_text(r) == opt_text(*o),
{
    match o {
        Some(s) => Some(s.clone()),
        None => None,
    }
}

/// The login time of a user's entry in `loginusers.vdf`: the number under
/// `Timestamp`, where the entry is an object that has one.
pub open spec fn login_timestamp(v: VdfNode) -> Option<i64> {
    match first_under(v, "Timestamp"@) {
        Some(VdfNode::Str(t)) => spec_parse_i64(t),
        _ => None,
    }
}

/// The latest login after looking at the entries `vs` of the user `key`:
/// an entry logged in later than the latest so far makes `key` the latest
/// user, where `key` is a 64-bit number.
pub open spec fn login_values(latest: (i64, Option<u64>), key: Seq<char>, vs: Seq<VdfNode>) -> (i64, Option<u64>)
    decreases vs.len(),
{
    if vs.len() == 0 {
        latest
    } else {
        let before = login_values(latest, key, vs.drop_last());
        match login_timestamp(vs.last()) {
            Some(t) => if t > before.0 {
                match spec_parse_u64(key) {
                    Some(id) => (t, Some(id)),
                    None => before,
                }
            } else {
                before
            },
            None => before,
        }
    }
}

/// The latest login after the users `entries`, in order.
pub open spec fn login_entries(latest: (i64, Option<u64>), entries: Seq<(Seq<char>, Seq<VdfNode>)>) -> (i64, Option<u64>)
    decreases entries.len(),
{
    if entries.len() == 0 {
        latest
    } else {
        let before = login_entries(latest, entries.drop_last());
        login_values(before, entries.last().0, entries.last().1)
    }
}

/// The SteamID of the user who logged in last, from the text of Steam's
/// `loginusers.vdf`: the user whose entry has the greatest positive
/// `Timestamp` (the first such in the file's order), where the document
/// parses and its root is an object.
pub open spec fn spec_latest_user(text: Seq<char>) -> Option<u64> {
    match spec_parse_vdf(text) {
        Some((_, VdfNode::Obj(entries))) => login_entries((0, None), entries).1,
        _ => None,
    }
}

/// Finds the Steam user who logged in last (see `spec_latest_user`).
pub fn latest_steam_user(loginusers: &str) -> (r: Option<u64>)
    ensures
        r == spec_latest_user(loginusers@),
{
    let doc = match parse_vdf(loginusers) {
        Some(d) => d,
        None => {
            return None;
        },
    };
    let entries = match &doc.value {
        VdfValue::Obj(entries) => entries,
        VdfValue::Str(_) => {
            return None;
        },
    };
    proof {
        crate::vdf::lemma_obj_view(doc.value);
    }
    let ghost ev = entries_view(entries@);
    let mut latest: i64 = 0;
    let mut user: Option<u64> = None;
    let mut i: usize = 0;
    while i < entries.len()
        invariant
            i <= entries@.len(),
            ev == entries_view(entries@),
            (latest, user) == login_entries((0, None), ev.take(i as int)),
        decreases entries.len() - i,
    {
        proof {
            assert(ev.take(i + 1).drop_last() =~= ev.take(i as int));
        }
        let key = &entries[i].0;
        let values = &entries[i].1;
        let ghost vv = values@.map_values(|x: VdfValue| node_of(x));
        let ghost start = (latest, user);
        let id = parse_u64(key.as_str());
        let mut j: usize = 0;
        while j < values.len()
            invariant
                j <= values@.len(),
                vv == values@.map_values(|x: VdfValue| node_of(x)),
                (latest, user) == login_values(start, key@, vv.take(j as int)),
                id == spec_parse_u64(key@),
            decreases values.len() - j,
        {
            proof {
                assert(vv.take(j + 1).drop_last() =~= vv.take(j as int));
            }
            let stamp = match first_value(&values[j], "Timestamp") {
                Some(VdfValue::Str(t)) => parse_i64(t.as_str()),
                _ => None,
            };
            match stamp {
                Some(t) => {
                    if t > latest {
                        match id {
                            Some(u) => {
                                latest = t;
                                user = Some(u);
                            },
                            None => {},
                        }
                    }
                },
                None => {},
            }
            j = j + 1;
        }
        proof {
            assert(vv.take(values@.len() as int) =~= vv);
            assert(ev[i as int] == (key@, vv));
        }
        i = i + 1;
    }
    proof {
        assert(ev.take(entries@.len() as int) =~= ev);
    }
    user
}

} // verus!

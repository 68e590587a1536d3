//! The messages that change the state: the periodic refresh, the user's
//! changes to players, and the user's preferences.
use vstd::prelude::*;
use vstd::string::StrSliceExecFns;

use crate::event_loop::Message;
use crate::json::{is_merge, well_formed, JsonValue};
use crate::player::{has_left, not_in, spec_name, still_here, Players};
use crate::player_records::{data_is_empty, strings_view, PlayerRecord, Verdict};
use crate::settings::{opt_text, FriendsAPIUsage, Settings};
use crate::state::MACState;
use crate::time::{parse_rfc3339, spec_parse_rfc3339};

verus! {

broadcast use vstd::std_specs::hash::group_hash_axioms;

/// The periodic tick on which the player list is refreshed.
#[derive(Debug, Clone, Copy)]
pub struct Refresh;

impl Message<MACState> for Refresh {
    fn preprocess(&mut self, state: &MACState) {
    }

    /// Refreshes the players (see `Players::refresh`): those who left move
    /// from `connected` to the back of `history`; the settings and the
    /// server stay as they are.
    fn update_state(self, state: &mut MACState)
        ensures
            final(state).players.connected@ == old(state).players.connected@.filter(
                still_here(old(state).players.game_info@),
            ),
            final(state).players.history@ == old(state).players.history@.filter(
                not_in(old(state).players.connected@.filter(has_left(old(state).players.game_info@))),
            ) + old(state).players.connected@.filter(has_left(old(state).players.game_info@)),
            final(state).players.game_info@.dom() == old(state).players.game_info@.dom(),
            final(state).settings == old(state).settings,
            final(state).server == old(state).server,
    {
        state.players.refresh();
    }
}

/// A change the user made to one player: a new verdict, and custom data to
/// merge in.
#[derive(Debug)]
pub struct UserUpdate {
    pub local_verdict: Option<Verdict>,
    pub custom_data: Option<JsonValue>,
}

/// Changes the user made to players, each player once.
#[derive(Debug)]
pub struct UserUpdates(pub Vec<(u64, UserUpdate)>);

/// Whether `n` is the record `o` (a new one where `o` is `None`) after the
/// update `u`, where the player is named `name`: custom data merged in, the
/// verdict set, and with a new verdict the name kept among the previous
/// names.
pub open spec fn record_updated(o: Option<PlayerRecord>, name: Option<Seq<char>>, u: UserUpdate, n: PlayerRecord) -> bool {
    let verdict0 = match o {
        Some(r) => r.verdict,
        None => Verdict::Player,
    };
    let names0 = match o {
        Some(r) => strings_view(r.previous_names@),
        None => Seq::empty(),
    };
    &&& n.verdict == match u.local_verdict {
        Some(v) => v,
        None => verdict0,
    }
    &&& match (o, u.custom_data) {
        (Some(r), Some(d)) => if r.custom_data is Object && d is Object {
            is_merge(r.custom_data, d, n.custom_data)
        } else {
            n.custom_data == r.custom_data
        },
        (Some(r), None) => n.custom_data == r.custom_data,
        (None, Some(d)) => if d is Object {
            exists|x: JsonValue| #[trigger] is_merge(x, d, n.custom_data) && (x matches JsonValue::Object(fs) && fs@.len() == 0)
        } else {
            n.custom_data matches JsonValue::Object(fs) && fs@.len() == 0
        },
        (None, None) => n.custom_data matches JsonValue::Object(fs) && fs@.len() == 0,
    }
    &&& strings_view(n.previous_names@) == match (u.local_verdict, name) {
        (Some(_), Some(nm)) => if names0.contains(nm) {
            names0
        } else {
            names0.push(nm)
        },
        _ => names0,
    }
    &&& n.wf()
}

impl UserUpdates {
    /// Applies the changes to the playerlist: each updated record is kept
    /// where it still holds something (see `PlayerRecord::is_empty`) and
    /// dropped otherwise; other records are left alone.
    pub fn apply(self, players: &mut Players)
        requires
            old(players).records.wf(),
            forall|i: int, j: int| 0 <= i < j < self.0@.len() ==> self.0@[i].0 != self.0@[j].0,
            forall|i: int| 0 <= i < self.0@.len() ==> ((#[trigger] self.0@[i]).1.custom_data matches Some(d)
                ==> well_formed(d)),
        ensures
            final(players).records.wf(),
            forall|k: u64|
                (forall|i: int| 0 <= i < self.0@.len() ==> (#[trigger] self.0@[i]).0 != k) ==> (
                #[trigger] final(players).records.records@.contains_key(k) == old(players).records.records@.contains_key(k)
                    && (old(players).records.records@.contains_key(k) ==> final(players).records.records@[k]
                    == old(players).records.records@[k])),
            forall|i: int|
                0 <= i < self.0@.len() ==> {
                    let k = (#[trigger] self.0@[i]).0;
                    let o = if old(players).records.records@.contains_key(k) {
                        Some(old(players).records.records@[k])
                    } else {
                        None
                    };
                    final(players).records.records@.contains_key(k) ==> record_updated(
                        o,
                        spec_name(*old(players), k),
                        self.0@[i].1,
                        final(players).records.records@[k],
                    ) && !final(players).records.records@[k].spec_is_empty()
                },
            final(players).game_info@ == old(players).game_info@,
            final(players).friend_info@ == old(players).friend_info@,
            final(players).connected@ == old(players).connected@,
    {
        let ghost ups = self.0@;
        let ghost p0 = *players;
        let UserUpdates(updates) = self;
        for entry in it: updates
            invariant
                it.seq() == ups,
                forall|i: int, j: int| 0 <= i < j < ups.len() ==> ups[i].0 != ups[j].0,
                forall|i: int| 0 <= i < ups.len() ==> ((#[trigger] ups[i]).1.custom_data matches Some(d) ==> well_formed(d)),
                players.records.wf(),
                players.game_info@ == p0.game_info@,
                players.steam_info@ == p0.steam_info@,
                players.friend_info@ == p0.friend_info@,
                players.connected@ == p0.connected@,
                forall|k: u64|
                    (forall|i: int| 0 <= i < it.index() ==> (#[trigger] ups[i]).0 != k) ==> (
                    #[trigger] players.records.records@.contains_key(k) == p0.records.records@.contains_key(k)
                        && (p0.records.records@.contains_key(k) ==> players.records.records@[k] == p0.records.records@[k])),
                forall|i: int|
                    0 <= i < it.index() ==> {
                        let k = (#[trigger] ups[i]).0;
                        let o = if p0.records.records@.contains_key(k) {
                            Some(p0.records.records@[k])
                        } else {
                            None
                        };
                        players.records.records@.contains_key(k) ==> record_updated(
                            o,
                            spec_name(p0, k),
                            ups[i].1,
                            players.records.records@[k],
                        ) && !players.records.records@[k].spec_is_empty()
                    },
        {
            let ghost idx = it.index();
            let ghost pre = *players;
            let (k, u) = entry;
            proof {
                assert(ups[idx] == (k, u));
                assert(forall|i: int| 0 <= i < idx ==> (#[trigger] ups[i]).0 != k);
                assert(pre.records.records@.contains_key(k) == p0.records.records@.contains_key(k));
                if p0.records.records@.contains_key(k) {
                    assert(pre.records.records@[k] == p0.records.records@[k]);
                }
            }
            let name: Option<String> = match players.get_name(k) {
                Some(n) => Some(n.to_string()),
                None => None,
            };
            proof {
                if p0.records.records@.contains_key(k) {
                    assert(pre.records.records@[k] == p0.records.records@[k]);
                }
                assert(spec_name(pre, k) == spec_name(p0, k));
            }
            let mut record = match players.records.records.remove(&k) {
                Some(r) => r,
                None => PlayerRecord::new(),
            };
            let ghost r0 = record;
            let ghost o = if p0.records.records@.contains_key(k) {
                Some(p0.records.records@[k])
            } else {
                None
            };
            proof {
                assert(r0.wf());
            }
            let ghost ug = u;
            let UserUpdate { local_verdict, custom_data } = u;
            match custom_data {
                Some(d) => record.set_custom_data(d),
                None => {},
            }
            let ghost r1 = record;
            match local_verdict {
                Some(v) => {
                    record.set_verdict(v);
                    match &name {
                        Some(n) => record.add_previous_name(n.as_str()),
                        None => {},
                    }
                },
                None => {},
            }
            proof {
                assert(record.custom_data == r1.custom_data);
                if o is None {
                    assert(strings_view(r0.previous_names@) =~= Seq::<Seq<char>>::empty());
                    match ug.custom_data {
                        Some(d) => {
                            if d is Object {
                                assert(is_merge(r0.custom_data, d, record.custom_data));
                            }
                        },
                        None => {},
                    }
                }
                assert(record_updated(o, spec_name(p0, k), ug, record));
            }
            if !record.is_empty() {
                players.records.records.insert(k, record);
            }
            proof {
                assert forall|k2: u64|
                    (forall|i: int| 0 <= i < idx + 1 ==> (#[trigger] ups[i]).0 != k2) implies (
                    #[trigger] players.records.records@.contains_key(k2) == p0.records.records@.contains_key(k2)
                        && (p0.records.records@.contains_key(k2) ==> players.records.records@[k2] == p0.records.records@[k2])) by {
                    assert(ups[idx].0 != k2);
                    assert(pre.records.records@.contains_key(k2) == p0.records.records@.contains_key(k2));
                }
                assert forall|i: int| 0 <= i < idx + 1 implies {
                    let kk = (#[trigger] ups[i]).0;
                    let o = if p0.records.records@.contains_key(kk) {
                        Some(p0.records.records@[kk])
                    } else {
                        None
                    };
                    players.records.records@.contains_key(kk) ==> record_updated(
                        o,
                        spec_name(p0, kk),
                        ups[i].1,
                        players.records.records@[kk],
                    ) && !players.records.records@[kk].spec_is_empty()
                } by {
                    if i < idx {
                        assert(ups[i].0 != k);
                        assert(pre.records.records@.contains_key(ups[i].0) == players.records.records@.contains_key(ups[i].0));
                    } else {
                        assert(ups[i] == (k, ug));
                    }
                }
                assert forall|k2: u64| #[trigger] players.records.records@.contains_key(k2) implies players.records.records@[k2].wf() by {
                    if k2 != k {
                        assert(pre.records.records@.contains_key(k2));
                    }
                }
            }
        }
    }
}

/// The client's own preferences, as the web interface sends them.
#[derive(Debug, Clone)]
pub struct InternalPreferences {
    pub friends_api_usage: Option<FriendsAPIUsage>,
    pub tf2_directory: Option<String>,
    pub rcon_password: Option<String>,
    pub steam_api_key: Option<String>,
    pub masterbase_key: Option<String>,
    pub masterbase_host: Option<String>,
    pub rcon_port: Option<u16>,
    pub dumb_autokick: Option<bool>,
    pub tos_agreement_date: Option<String>,
}

/// Preferences from the web interface: the client's own, and the
/// interface's (kept as they are).
#[derive(Debug)]
pub struct Preferences {
    pub internal: Option<InternalPreferences>,
    pub external: Option<JsonValue>,
}

/// The agreement date after the text `t`: an empty text clears it, a date
/// in RFC 3339 sets it, anything else leaves it.
pub open spec fn tos_after(old_date: Option<crate::time::Timestamp>, t: Seq<char>) -> Option<crate::time::Timestamp> {
    if t.len() == 0 {
        None
    } else {
        match spec_parse_rfc3339(t) {
            Some(d) => Some(d),
            None => old_date,
        }
    }
}

impl InternalPreferences {
    /// Applies the client's own preferences to the settings: each one given
    /// replaces the setting.
    pub fn apply(self, settings: &mut Settings)
        ensures
            final(settings).external == old(settings).external,
            (self.tf2_directory matches Some(d) ==> final(settings).tf2_directory@ == d@),
            (self.tf2_directory is None ==> final(settings).tf2_directory == old(settings).tf2_directory),
            (self.rcon_password matches Some(d) ==> final(settings).rcon_password@ == d@),
            (self.rcon_password is None ==> final(settings).rcon_password == old(settings).rcon_password),
            final(settings).rcon_port == match self.rcon_port {
                Some(p) => p,
                None => old(settings).rcon_port,
            },
            (self.steam_api_key matches Some(d) ==> final(settings).steam_api_key@ == d@),
            (self.steam_api_key is None ==> final(settings).steam_api_key == old(settings).steam_api_key),
            final(settings).friends_api_usage == match self.friends_api_usage {
                Some(p) => p,
                None => old(settings).friends_api_usage,
            },
            (self.masterbase_key matches Some(d) ==> final(settings).masterbase_key@ == d@),
            (self.masterbase_key is None ==> final(settings).masterbase_key == old(settings).masterbase_key),
            (self.masterbase_host matches Some(d) ==> final(settings).masterbase_host@ == d@),
            (self.masterbase_host is None ==> final(settings).masterbase_host == old(settings).masterbase_host),
            final(settings).autokick_bots == match self.dumb_autokick {
                Some(p) => p,
                None => old(settings).autokick_bots,
            },
            final(settings).tos_agreement_date == match self.tos_agreement_date {
                Some(t) => tos_after(old(settings).tos_agreement_date, t@),
                None => old(settings).tos_agreement_date,
            },
    {
        let InternalPreferences {
            friends_api_usage,
            tf2_directory,
            rcon_password,
            steam_api_key,
            masterbase_key,
            masterbase_host,
            rcon_port,
            dumb_autokick,
            tos_agreement_date,
        } = self;
        apply_connection_prefs(settings, tf2_directory, rcon_password, rcon_port, steam_api_key, friends_api_usage);
        apply_masterbase_prefs(settings, masterbase_key, masterbase_host, dumb_autokick, tos_agreement_date);
    }
}

/// Applies the preferences about the game and the Steam Web API.
fn apply_connection_prefs(
    settings: &mut Settings,
    tf2_directory: Option<String>,
    rcon_password: Option<String>,
    rcon_port: Option<u16>,
    steam_api_key: Option<String>,
    friends_api_usage: Option<FriendsAPIUsage>,
)
    ensures
        (tf2_directory matches Some(d) ==> final(settings).tf2_directory@ == d@),
        (tf2_directory is None ==> final(settings).tf2_directory == old(settings).tf2_directory),
        (rcon_password matches Some(d) ==> final(settings).rcon_password@ == d@),
        (rcon_password is None ==> final(settings).rcon_password == old(settings).rcon_password),
        final(settings).rcon_port == match rcon_port {
            Some(p) => p,
            None => old(settings).rcon_port,
        },
        (steam_api_key matches Some(d) ==> final(settings).steam_api_key@ == d@),
        (steam_api_key is None ==> final(settings).steam_api_key == old(settings).steam_api_key),
        final(settings).friends_api_usage == match friends_api_usage {
            Some(p) => p,
            None => old(settings).friends_api_usage,
        },
        final(settings).masterbase_key == old(settings).masterbase_key,
        final(settings).masterbase_host == old(settings).masterbase_host,
        final(settings).autokick_bots == old(settings).autokick_bots,
        final(settings).tos_agreement_date == old(settings).tos_agreement_date,
        final(settings).external == old(settings).external,
{
    match tf2_directory {
        Some(d) => settings.set_tf2_directory(d),
        None => {},
    }
    match rcon_password {
        Some(p) => settings.set_rcon_password(p),
        None => {},
    }
    match rcon_port {
        Some(p) => settings.set_rcon_port(p),
        None => {},
    }
    match steam_api_key {
        Some(k) => settings.set_steam_api_key(k),
        None => {},
    }
    match friends_api_usage {
        Some(f) => settings.set_friends_api_usage(f),
        None => {},
    }
}

/// Applies the preferences about demo uploads, bots and the terms of
/// service.
fn apply_masterbase_prefs(
    settings: &mut Settings,
    masterbase_key: Option<String>,
    masterbase_host: Option<String>,
    dumb_autokick: Option<bool>,
    tos_agreement_date: Option<String>,
)
    ensures
        (masterbase_key matches Some(d) ==> final(settings).masterbase_key@ == d@),
        (masterbase_key is None ==> final(settings).masterbase_key == old(settings).masterbase_key),
        (masterbase_host matches Some(d) ==> final(settings).masterbase_host@ == d@),
        (masterbase_host is None ==> final(settings).masterbase_host == old(settings).masterbase_host),
        final(settings).autokick_bots == match dumb_autokick {
            Some(p) => p,
            None => old(settings).autokick_bots,
        },
        final(settings).tos_agreement_date == match tos_agreement_date {
            Some(t) => tos_after(old(settings).tos_agreement_date, t@),
            None => old(settings).tos_agreement_date,
        },
        final(settings).tf2_directory == old(settings).tf2_directory,
        final(settings).rcon_password == old(settings).rcon_password,
        final(settings).rcon_port == old(settings).rcon_port,
        final(settings).steam_api_key == old(settings).steam_api_key,
        final(settings).friends_api_usage == old(settings).friends_api_usage,
        final(settings).external == old(settings).external,
{
    match masterbase_key {
        Some(k) => settings.set_masterbase_key(k),
        None => {},
    }
    match masterbase_host {
        Some(h) => settings.set_masterbase_host(h),
        None => {},
    }
    match dumb_autokick {
        Some(a) => settings.set_autokick_bots(a),
        None => {},
    }
    match tos_agreement_date {
        Some(t) => {
            if t.as_str().unicode_len() == 0 {
                settings.set_tos_agreement_date(None);
            } else {
                match parse_rfc3339(t.as_str()) {
                    Some(d) => settings.set_tos_agreement_date(Some(d)),
                    None => {},
                }
            }
        },
        None => {},
    }
}

impl Preferences {
    /// Applies the preferences to the settings: each preference given
    /// replaces the setting, and the interface's preferences are merged in
    /// (see `merge_json_objects`).
    pub fn apply(self, settings: &mut Settings)
        requires
            old(settings).wf(),
            self.external matches Some(e) ==> well_formed(e),
        ensures
            final(settings).wf(),
            self.internal matches Some(i) ==> {
                &&& (i.tf2_directory matches Some(d) ==> final(settings).tf2_directory@ == d@)
                &&& (i.tf2_directory is None ==> final(settings).tf2_directory == old(settings).tf2_directory)
                &&& (i.rcon_password matches Some(d) ==> final(settings).rcon_password@ == d@)
                &&& (i.rcon_password is None ==> final(settings).rcon_password == old(settings).rcon_password)
                &&& final(settings).rcon_port == match i.rcon_port {
                    Some(p) => p,
                    None => old(settings).rcon_port,
                }
                &&& (i.steam_api_key matches Some(d) ==> final(settings).steam_api_key@ == d@)
                &&& (i.steam_api_key is None ==> final(settings).steam_api_key == old(settings).steam_api_key)
                &&& final(settings).friends_api_usage == match i.friends_api_usage {
                    Some(p) => p,
                    None => old(settings).friends_api_usage,
                }
                &&& (i.masterbase_key matches Some(d) ==> final(settings).masterbase_key@ == d@)
                &&& (i.masterbase_host matches Some(d) ==> final(settings).masterbase_host@ == d@)
                &&& final(settings).autokick_bots == match i.dumb_autokick {
                    Some(p) => p,
                    None => old(settings).autokick_bots,
                }
                &&& final(settings).tos_agreement_date == match i.tos_agreement_date {
                    Some(t) => tos_after(old(settings).tos_agreement_date, t@),
                    None => old(settings).tos_agreement_date,
                }
            },
            self.internal is None ==> final(settings).rcon_port == old(settings).rcon_port
                && final(settings).friends_api_usage == old(settings).friends_api_usage,
            match self.external {
                Some(e) => if old(settings).external is Object && e is Object {
                    is_merge(old(settings).external, e, final(settings).external)
                } else {
                    final(settings).external == old(settings).external
                },
                None => final(settings).external == old(settings).external,
            },
    {
        let Preferences { internal, external } = self;
        match internal {
            Some(i) => i.apply(settings),
            None => {},
        }
        match external {
            Some(e) => settings.update_external_preferences(e),
            None => {},
        }
    }
}

} // verus!

//! The persistent personal playerlist: what the user has recorded of each
//! player.
use std::collections::HashMap;
use vstd::prelude::*;
use vstd::string::StrSliceExecFns;

use crate::json::{is_merge, merge_json_objects, well_formed, JsonValue};
use crate::maps::keys_of;
use crate::time::{utc_now, Timestamp};

verus! {

broadcast use vstd::std_specs::hash::group_hash_axioms;

/// What a player is marked as in the personal playerlist.
#[derive(Debug, Clone, Copy, PartialEq, Eq, Structural)]
pub enum Verdict {
    Player,
    Bot,
    Suspicious,
    Cheater,
    Trusted,
}

/// The name of a verdict, as the playerlist file and the web interface
/// write it.
pub open spec fn verdict_name(v: Verdict) -> Seq<char> {
    match v {
        Verdict::Player => "Player"@,
        Verdict::Bot => "Bot"@,
        Verdict::Suspicious => "Suspicious"@,
        Verdict::Cheater => "Cheater"@,
        Verdict::Trusted => "Trusted"@,
    }
}

impl Verdict {
    /// The verdict a record starts with.
    pub fn default() -> (v: Verdict)
        ensures
            v == Verdict::Player,
    {
        Verdict::Player
    }

    /// The name of this verdict.
    pub fn to_string(&self) -> (s: String)
        ensures
            s@ == verdict_name(*self),
    {
        match self {
            Verdict::Player => "Player".to_string(),
            Verdict::Bot => "Bot".to_string(),
            Verdict::Suspicious => "Suspicious".to_string(),
            Verdict::Cheater => "Cheater".to_string(),
            Verdict::Trusted => "Trusted".to_string(),
        }
    }
}

/// The text of each string in `v`.
pub open spec fn strings_view(v: Seq<String>) -> Seq<Seq<char>> {
    v.map_values(|s: String| s@)
}

/// Whether custom data holds nothing: null, or an empty object, array or
/// string.
pub open spec fn data_is_empty(d: JsonValue) -> bool {
    match d {
        JsonValue::Null => true,
        JsonValue::Object(fs) => fs@.len() == 0,
        JsonValue::Array(xs) => xs@.len() == 0,
        JsonValue::Str(s) => s@.len() == 0,
        _ => false,
    }
}

/// A record of a player stored in the persistent personal playerlist.
#[derive(Debug)]
pub struct PlayerRecord {
    pub name: String,
    pub custom_data: JsonValue,
    pub verdict: Verdict,
    pub previous_names: Vec<String>,
    /// Time of the last change the user made.
    pub modified: Timestamp,
    pub created: Timestamp,
}

/// The custom data a new record starts with: an empty object.
pub fn default_custom_data() -> (d: JsonValue)
    ensures
        d matches JsonValue::Object(fs) && fs@.len() == 0,
        well_formed(d),
{
    JsonValue::Object(Vec::new())
}

/// The time a new record is stamped with: the time of the call.
pub fn default_date() -> (t: Timestamp) {
    utc_now()
}

impl PlayerRecord {
    /// Whether the record's custom data is well formed.
    pub open spec fn wf(&self) -> bool {
        well_formed(self.custom_data)
    }

    /// A record that holds nothing yet: no name, empty custom data, the
    /// verdict `Player`, no previous names.
    pub fn new() -> (r: PlayerRecord)
        ensures
            r.wf(),
            r.name@.len() == 0,
            r.custom_data matches JsonValue::Object(fs) && fs@.len() == 0,
            r.verdict == Verdict::Player,
            r.previous_names@.len() == 0,
            r.modified == r.created,
    {
        let now = default_date();
        PlayerRecord {
            name: String::new(),
            custom_data: default_custom_data(),
            verdict: Verdict::default(),
            previous_names: Vec::new(),
            modified: now,
            created: now,
        }
    }

    /// The spec form of `is_empty`.
    pub open spec fn spec_is_empty(&self) -> bool {
        self.verdict == Verdict::Player && data_is_empty(self.custom_data)
    }

    /// Whether the record holds nothing worth keeping: the verdict is
    /// `Player` and the custom data is null or an empty object, array or
    /// string.
    pub fn is_empty(&self) -> (b: bool)
        ensures
            b == self.spec_is_empty(),
    {
        let empty_data = match &self.custom_data {
            JsonValue::Null => true,
            JsonValue::Object(fs) => fs.len() == 0,
            JsonValue::Array(xs) => xs.len() == 0,
            JsonValue::Str(s) => s.as_str().unicode_len() == 0,
            _ => false,
        };
        self.verdict == Verdict::Player && empty_data
    }

    /// The custom data.
    pub fn custom_data(&self) -> (d: &JsonValue)
        ensures
            *d == self.custom_data,
    {
        &self.custom_data
    }

    /// Empties the custom data and stamps the record as modified now.
    pub fn clear_custom_data(&mut self)
        ensures
            final(self).custom_data matches JsonValue::Object(fs) && fs@.len() == 0,
            final(self).wf(),
            final(self).name == old(self).name,
            final(self).verdict == old(self).verdict,
            final(self).previous_names@ == old(self).previous_names@,
            final(self).created == old(self).created,
    {
        self.custom_data = default_custom_data();
        self.modified = utc_now();
    }

    /// Merges `val` into the custom data (see `merge_json_objects`) and
    /// stamps the record as modified now.
    pub fn set_custom_data(&mut self, val: JsonValue)
        requires
            old(self).wf(),
            well_formed(val),
        ensures
            final(self).wf(),
            (old(self).custom_data is Object && val is Object) ==> is_merge(
                old(self).custom_data,
                val,
                final(self).custom_data,
            ),
            !(old(self).custom_data is Object && val is Object) ==> final(self).custom_data == old(
                self,
            ).custom_data,
            final(self).name == old(self).name,
            final(self).verdict == old(self).verdict,
            final(self).previous_names@ == old(self).previous_names@,
            final(self).created == old(self).created,
    {
        merge_json_objects(&mut self.custom_data, val);
        self.modified = utc_now();
    }

    /// The verdict.
    pub fn verdict(&self) -> (v: Verdict)
        ensures
            v == self.verdict,
    {
        self.verdict
    }

    /// Sets the verdict and stamps the record as modified now.
    pub fn set_verdict(&mut self, verdict: Verdict)
        ensures
            final(self).verdict == verdict,
            final(self).name == old(self).name,
            final(self).custom_data == old(self).custom_data,
            final(self).previous_names@ == old(self).previous_names@,
            final(self).created == old(self).created,
    {
        self.verdict = verdict;
        self.modified = utc_now();
    }

    /// The names the player was seen with before, oldest first.
    pub fn previous_names(&self) -> (names: &[String])
        ensures
            names@ == self.previous_names@,
    {
        self.previous_names.as_slice()
    }

    /// Adds `name` to the previous names unless it is there already.
    pub fn add_previous_name(&mut self, name: &str)
        ensures
            strings_view(old(self).previous_names@).contains(name@) ==> final(self).previous_names@
                == old(self).previous_names@,
            !strings_view(old(self).previous_names@).contains(name@) ==> strings_view(
                final(self).previous_names@,
            ) == strings_view(old(self).previous_names@).push(name@),
            final(self).name == old(self).name,
            final(self).custom_data == old(self).custom_data,
            final(self).verdict == old(self).verdict,
            final(self).modified == old(self).modified,
            final(self).created == old(self).created,
    {
        let owned = name.to_string();
        let mut i: usize = 0;
        while i < self.previous_names.len()
            invariant
                i <= self.previous_names@.len(),
                owned@ == name@,
                forall|j: int| 0 <= j < i ==> self.previous_names@[j]@ != name@,
            decreases self.previous_names.len() - i,
        {
            if self.previous_names[i] == owned {
                proof {
                    assert(strings_view(self.previous_names@)[i as int] == name@);
                }
                return;
            }
            i = i + 1;
        }
        proof {
            assert(!strings_view(self.previous_names@).contains(name@)) by {
                if strings_view(self.previous_names@).contains(name@) {
                    let j = choose|j: int|
                        0 <= j < strings_view(self.previous_names@).len()
                            && strings_view(self.previous_names@)[j] == name@;
                    assert(self.previous_names@[j]@ == name@);
                }
            }
        }
        let ghost before = self.previous_names@;
        self.previous_names.push(owned);
        proof {
            assert(strings_view(self.previous_names@) =~= strings_view(before).push(name@));
        }
    }

    /// When the user last changed the record.
    pub fn modified(&self) -> (t: Timestamp)
        ensures
            t == self.modified,
    {
        self.modified
    }

    /// When the record was made.
    pub fn created(&self) -> (t: Timestamp)
        ensures
            t == self.created,
    {
        self.created
    }
}

/// The personal playerlist: a record per SteamID, and the file it is kept
/// in.
pub struct PlayerRecords {
    pub path: String,
    pub records: HashMap<u64, PlayerRecord>,
}

impl PlayerRecords {
    /// Whether every record's custom data is well formed.
    pub open spec fn wf(&self) -> bool {
        forall|k: u64| #[trigger] self.records@.contains_key(k) ==> self.records@[k].wf()
    }

    /// An empty playerlist kept at `path`.
    pub fn new(path: String) -> (r: PlayerRecords)
        ensures
            r.wf(),
            r.path@ == path@,
            r.records@.len() == 0,
            r.records@.dom().len() == 0,
    {
        PlayerRecords { path, records: HashMap::new() }
    }

    /// Keeps the playerlist at `path` from now on.
    pub fn set_path(&mut self, path: String)
        ensures
            final(self).path@ == path@,
            final(self).records@ == old(self).records@,
    {
        self.path = path;
    }

    /// Replaces custom data that is null (written by old versions) with an
    /// empty object.
    pub fn replace_null_custom_data(&mut self)
        requires
            old(self).wf(),
        ensures
            final(self).wf(),
            final(self).path@ == old(self).path@,
            final(self).records@.dom() == old(self).records@.dom(),
            forall|k: u64|
                #[trigger] old(self).records@.contains_key(k) ==> {
                    let o = old(self).records@[k];
                    let n = final(self).records@[k];
                    &&& n.name == o.name
                    &&& n.verdict == o.verdict
                    &&& n.previous_names@ == o.previous_names@
                    &&& n.modified == o.modified
                    &&& n.created == o.created
                    &&& if o.custom_data is Null {
                        n.custom_data matches JsonValue::Object(fs) && fs@.len() == 0
                    } else {
                        n.custom_data == o.custom_data
                    }
                },
    {
        let ks = keys_of(&self.records);
        let ghost start = self.records@;
        let ghost p = self.path@;
        let mut i: usize = 0;
        while i < ks.len()
            invariant
                self.path@ == p,
                ks@.to_set() == start.dom(),
                ks@.no_duplicates(),
                i <= ks@.len(),
                self.records@.dom() == start.dom(),
                forall|k: u64| #[trigger] self.records@.contains_key(k) ==> self.records@[k].wf(),
                forall|j: int|
                    i <= j < ks@.len() ==> #[trigger] self.records@[ks@[j]] == start[ks@[j]],
                forall|k: u64|
                    #[trigger] start.contains_key(k) ==> {
                        let o = start[k];
                        let n = self.records@[k];
                        &&& n.name == o.name
                        &&& n.verdict == o.verdict
                        &&& n.previous_names@ == o.previous_names@
                        &&& n.modified == o.modified
                        &&& n.created == o.created
                        &&& if o.custom_data is Null {
                            n.custom_data is Null || (n.custom_data matches JsonValue::Object(fs)
                                && fs@.len() == 0)
                        } else {
                            n.custom_data == o.custom_data
                        }
                    },
                forall|j: int|
                    0 <= j < i ==> !(#[trigger] self.records@[ks@[j]].custom_data is Null),
            decreases ks.len() - i,
        {
            let k = ks[i];
            proof {
                assert(ks@.to_set().contains(k));
            }
            let rec = self.records.remove(&k);
            match rec {
                Some(mut r) => {
                    let is_null = r.custom_data.is_null();
                    if is_null {
                        r.custom_data = default_custom_data();
                    }
                    self.records.insert(k, r);
                },
                None => {},
            }
            proof {
                assert forall|j: int| i < j < ks@.len() implies #[trigger] self.records@[ks@[j]]
                    == start[ks@[j]] by {
                    assert(ks@[j] != ks@[i as int]);
                }
                assert forall|j: int| 0 <= j < i + 1 implies !(
                #[trigger] self.records@[ks@[j]].custom_data is Null) by {
                    if j < i {
                        assert(ks@[j] != ks@[i as int]);
                    }
                }
            }
            i = i + 1;
        }
        proof {
            assert forall|k: u64| #[trigger] start.contains_key(k) implies !(
            self.records@[k].custom_data is Null) by {
                assert(ks@.to_set().contains(k));
                let j = choose|j: int| 0 <= j < ks@.len() && ks@[j] == k;
                assert(!(self.records@[ks@[j]].custom_data is Null));
            }
        }
    }

    /// Removes all records that hold nothing worth keeping.
    pub fn prune(&mut self)
        ensures
            final(self).path@ == old(self).path@,
            forall|k: u64|
                #[trigger] final(self).records@.contains_key(k) <==> old(self).records@.contains_key(
                    k,
                ) && !old(self).records@[k].spec_is_empty(),
            forall|k: u64|
                #[trigger] final(self).records@.contains_key(k) ==> final(self).records@[k] == old(
                    self,
                ).records@[k],
    {
        let ks = keys_of(&self.records);
        let ghost start = self.records@;
        let ghost p = self.path@;
        let mut i: usize = 0;
        while i < ks.len()
            invariant
                self.path@ == p,
                ks@.to_set() == start.dom(),
                ks@.no_duplicates(),
                i <= ks@.len(),
                forall|k: u64|
                    #[trigger] self.records@.contains_key(k) ==> start.contains_key(k)
                        && self.records@[k] == start[k],
                forall|j: int|
                    i <= j < ks@.len() ==> #[trigger] self.records@.contains_key(ks@[j]),
                forall|j: int|
                    0 <= j < i ==> (#[trigger] self.records@.contains_key(ks@[j]) <==> !start[ks@[
                        j
                    ]].spec_is_empty()),
            decreases ks.len() - i,
        {
            let k = ks[i];
            let empty = match self.records.get(&k) {
                Some(r) => r.is_empty(),
                None => false,
            };
            if empty {
                self.records.remove(&k);
            }
            proof {
                assert forall|j: int| i < j < ks@.len() implies #[trigger] self.records@.contains_key(
                    ks@[j],
                ) by {
                    assert(ks@[j] != ks@[i as int]);
                }
                assert forall|j: int| 0 <= j < i + 1 implies (#[trigger] self.records@.contains_key(
                    ks@[j],
                ) <==> !start[ks@[j]].spec_is_empty()) by {
                    if j < i {
                        assert(ks@[j] != ks@[i as int]);
                    }
                }
            }
            i = i + 1;
        }
        proof {
            assert forall|k: u64| #[trigger] self.records@.contains_key(k) <==> start.contains_key(k)
                && !start[k].spec_is_empty() by {
                if start.contains_key(k) {
                    assert(ks@.to_set().contains(k));
                    let j = choose|j: int| 0 <= j < ks@.len() && ks@[j] == k;
                    assert(self.records@.contains_key(ks@[j]) <==> !start[ks@[j]].spec_is_empty());
                }
            }
        }
    }

    /// Records that the player `steamid` now goes by `name`, where the
    /// playerlist has a record of that player and its name differs: the
    /// name is set and added to the previous names.
    pub fn update_name(&mut self, steamid: u64, name: &str)
        ensures
            final(self).path@ == old(self).path@,
            name_updated(old(self).records@, final(self).records@, steamid, name@),
    {
        let same = match self.records.get(&steamid) {
            Some(r) => string_eq_str(&r.name, name),
            None => true,
        };
        if same {
            return;
        }
        let rec = self.records.remove(&steamid);
        match rec {
            Some(mut r) => {
                r.name = name.to_string();
                r.add_previous_name(name);
                self.records.insert(steamid, r);
            },
            None => {},
        }
    }
}

/// Whether `n` is the playerlist `o` after the player `steamid` was seen
/// with the name `name`: where the player has a record under another name,
/// the name is set and added to the previous names (unless there already);
/// nothing else changes.
pub open spec fn name_updated(
    o: Map<u64, PlayerRecord>,
    n: Map<u64, PlayerRecord>,
    steamid: u64,
    name: Seq<char>,
) -> bool {
    &&& n.dom() == o.dom()
    &&& forall|k: u64| #[trigger] n.contains_key(k) && k != steamid ==> n[k] == o[k]
    &&& o.contains_key(steamid) ==> {
        let r0 = o[steamid];
        let r1 = n[steamid];
        if r0.name@ == name {
            r1 == r0
        } else {
            &&& r1.name@ == name
            &&& r1.custom_data == r0.custom_data
            &&& r1.verdict == r0.verdict
            &&& r1.modified == r0.modified
            &&& r1.created == r0.created
            &&& (strings_view(r0.previous_names@).contains(name) ==> r1.previous_names@
                == r0.previous_names@)
            &&& (!strings_view(r0.previous_names@).contains(name) ==> strings_view(
                r1.previous_names@,
            ) == strings_view(r0.previous_names@).push(name))
        }
    }
}

/// Whether `a` and `b` hold the same text.
pub fn string_eq_str(a: &String, b: &str) -> (r: bool)
    ensures
        r == (a@ == b@),
{
    let owned = b.to_string();
    *a == owned
}

} // verus!

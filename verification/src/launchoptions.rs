//! The launch options Steam keeps for TF2, and the ones this client needs.
use vstd::prelude::*;

use crate::player_records::{string_eq_str, strings_view};
use crate::text::{push_str, spec_decimal, spec_words, split_whitespace, u64_to_decimal};
use crate::vdf::{get_nested_value, nested, node_of, parse_vdf, spec_parse_vdf, VdfNode, VdfValue};

verus! {

/// Steam's id for TF2.
pub const TF2_GAME_ID: u32 = 440;

/// The launch options this client needs: `-condebug` writes the console to
/// `console.log`, `-conclearlog` clears that file at launch, `-usercon`
/// allows local RCON, and `-g15` enables `g15_dumpplayer`.
pub open spec fn required_opts() -> Seq<Seq<char>> {
    seq!["-condebug"@, "-conclearlog"@, "-usercon"@, "-g15"@]
}

/// The launch options this client needs (see `required_opts`).
pub fn tf2_required_opts() -> (v: Vec<&'static str>)
    ensures
        v@.map_values(|s: &str| s@) == required_opts(),
{
    let v = vec!["-condebug", "-conclearlog", "-usercon", "-g15"];
    assert(v@.map_values(|s: &str| s@) =~= required_opts());
    v
}

/// The keys leading from the root of `localconfig.vdf` to TF2's launch
/// options.
pub open spec fn launch_option_keys() -> Seq<Seq<char>> {
    seq!["Software"@, "Valve"@, "Steam"@, "apps"@, spec_decimal(TF2_GAME_ID as nat), "LaunchOptions"@]
}

/// Where, under the Steam folder, the local configuration of the user
/// `steam_user` is kept: the folder is named by the account id, the low 32
/// bits of the 64-bit SteamID.
pub open spec fn spec_local_config_path(steam_user: u64) -> Seq<char> {
    "userdata/"@ + spec_decimal((steam_user % 0x1_0000_0000) as nat) + "/config/localconfig.vdf"@
}

/// Where the local configuration of a user is kept (see
/// `spec_local_config_path`).
pub fn local_config_path(steam_user: u64) -> (r: String)
    ensures
        r@ == spec_local_config_path(steam_user),
{
    let account_id: u64 = steam_user % 0x1_0000_0000;
    let mut r = "userdata/".to_string();
    let digits = u64_to_decimal(account_id);
    push_str(&mut r, digits.as_str());
    push_str(&mut r, "/config/localconfig.vdf");
    r
}

/// Why the launch options could not be read.
#[derive(Debug, Clone, Copy, PartialEq, Eq, Structural)]
pub enum LaunchOptionsError {
    /// The file is not a VDF document.
    Unparsable,
    /// A key on the way to the launch options is missing.
    NotFound,
    /// The launch options are not a string.
    NotAString,
}

/// TF2's launch options, as words.
pub struct LaunchOptions {
    pub launch_options: Vec<String>,
}

impl LaunchOptions {
    /// Reads the launch options from the text of the user's
    /// `localconfig.vdf`: the string under `launch_option_keys`, split into
    /// words.
    pub fn from_localconfig(text: &str) -> (r: Result<LaunchOptions, LaunchOptionsError>)
        ensures
            match spec_parse_vdf(text@) {
                None => r == Err::<LaunchOptions, LaunchOptionsError>(LaunchOptionsError::Unparsable),
                Some((_, root)) => match nested(root, launch_option_keys()) {
                    None => r == Err::<LaunchOptions, LaunchOptionsError>(LaunchOptionsError::NotFound),
                    Some(VdfNode::Obj(_)) => r == Err::<LaunchOptions, LaunchOptionsError>(LaunchOptionsError::NotAString),
                    Some(VdfNode::Str(s)) => r matches Ok(lo) && lo.launch_options.deep_view() == spec_words(s),
                },
            },
    {
        let doc = match parse_vdf(text) {
            Some(d) => d,
            None => {
                return Err(LaunchOptionsError::Unparsable);
            },
        };
        let keys: Vec<String> = vec![
            "Software".to_string(),
            "Valve".to_string(),
            "Steam".to_string(),
            "apps".to_string(),
            u64_to_decimal(TF2_GAME_ID as u64),
            "LaunchOptions".to_string(),
        ];
        assert(keys.deep_view() =~= launch_option_keys());
        match get_nested_value(&doc.value, &keys) {
            None => Err(LaunchOptionsError::NotFound),
            Some(VdfValue::Obj(_)) => Err(LaunchOptionsError::NotAString),
            Some(VdfValue::Str(s)) => Ok(LaunchOptions { launch_options: split_whitespace(s.as_str()) }),
        }
    }

    /// The needed launch options (see `required_opts`) that are not set, in
    /// the order `required_opts` lists them.
    pub fn check_missing_args(&self) -> (missing: Vec<&'static str>)
        ensures
            missing@.map_values(|s: &str| s@) == required_opts().filter(
                |o: Seq<char>| !strings_view(self.launch_options@).contains(o),
            ),
    {
        let opts = tf2_required_opts();
        let ghost have = strings_view(self.launch_options@);
        let ghost pred = |o: Seq<char>| !have.contains(o);
        let mut missing: Vec<&'static str> = Vec::new();
        let mut i: usize = 0;
        while i < opts.len()
            invariant
                i <= opts@.len(),
                opts@.map_values(|s: &str| s@) == required_opts(),
                have == strings_view(self.launch_options@),
                pred == (|o: Seq<char>| !have.contains(o)),
                missing@.map_values(|s: &str| s@) == required_opts().take(i as int).filter(pred),
            decreases opts.len() - i,
        {
            let o = opts[i];
            let ghost before = missing@;
            proof {
                reveal(Seq::filter);
                assert(required_opts().take(i + 1).drop_last() =~= required_opts().take(i as int));
                assert(required_opts().take(i + 1).last() == o@);
            }
            if !self.has_option(o) {
                missing.push(o);
                proof {
                    assert(missing@.map_values(|s: &str| s@) =~= before.map_values(|s: &str| s@).push(o@));
                }
            }
            i = i + 1;
        }
        proof {
            assert(required_opts().take(opts@.len() as int) =~= required_opts());
        }
        missing
    }

    /// Whether the option `o` is set.
    fn has_option(&self, o: &str) -> (b: bool)
        ensures
            b == strings_view(self.launch_options@).contains(o@),
    {
        let mut i: usize = 0;
        while i < self.launch_options.len()
            invariant
                i <= self.launch_options@.len(),
                forall|j: int| 0 <= j < i ==> self.launch_options@[j]@ != o@,
            decreases self.launch_options.len() - i,
        {
            if string_eq_str(&self.launch_options[i], o) {
                proof {
                    assert(strings_view(self.launch_options@)[i as int] == o@);
                }
                return true;
            }
            i = i + 1;
        }
        proof {
            if strings_view(self.launch_options@).contains(o@) {
                let j = choose|j: int|
                    0 <= j < strings_view(self.launch_options@).len() && strings_view(self.launch_options@)[j] == o@;
                assert(self.launch_options@[j]@ == o@);
            }
        }
        false
    }
}

} // verus!

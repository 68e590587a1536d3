//! Steam account identifiers. The library holds a SteamID as its 64-bit
//! value; the textual forms come from `steamid_ng`.
use crate::text::spec_decimal;
use steamid_ng::SteamID;
use vstd::prelude::*;

verus! {

/// The account type of a 64-bit id: bits 52 to 55.
pub open spec fn account_kind(id: u64) -> u64 {
    (id >> 52u64) & 0xFu64
}

/// The universe of a 64-bit id: its top byte.
pub open spec fn universe_of(id: u64) -> u64 {
    id >> 56u64
}

/// The account number of a 64-bit id: its low 32 bits.
pub open spec fn account_of(id: u64) -> u64 {
    id & 0xFFFF_FFFFu64
}

/// The instance of a 64-bit id: bits 32 to 51; its low 12 bits are the
/// instance type, the rest the instance flags.
pub open spec fn instance_of(id: u64) -> u64 {
    (id >> 32u64) & 0xF_FFFFu64
}

/// Whether `steamid_ng` takes a 64-bit id: its account type is one of the
/// eleven it knows (0 to 10) and its universe one of the six (0 to 5).
pub open spec fn steamid_valid(id: u64) -> bool {
    account_kind(id) <= 10 && universe_of(id) <= 5
}

/// The Steam2 text (`STEAM_1:0:11101`) that `steamid_ng` renders for a
/// 64-bit id: for an invalid or individual account (types 0 and 1)
/// `STEAM_`, the universe, `:`, the lowest bit of the account number, `:`
/// and the rest of it; for any other account the 64-bit value in decimal.
/// `None` where `steamid_ng` refuses the id.
pub open spec fn spec_steam2(id: u64) -> Option<Seq<char>> {
    if !steamid_valid(id) {
        None
    } else if account_kind(id) <= 1 {
        Some(
            "STEAM_"@ + spec_decimal(universe_of(id) as nat) + ":"@ + spec_decimal((account_of(id) % 2) as nat) + ":"@
                + spec_decimal((account_of(id) / 2) as nat),
        )
    } else {
        Some(spec_decimal(id as nat))
    }
}

/// The letter Steam3 text gives an account type; that of a chat depends on
/// its instance flags (clan `c`, lobby `L`, any other `T`).
pub open spec fn steam3_letter(kind: u64, flags: u64) -> char {
    if kind == 0 {
        'I'
    } else if kind == 1 {
        'U'
    } else if kind == 2 {
        'M'
    } else if kind == 3 {
        'G'
    } else if kind == 4 {
        'A'
    } else if kind == 5 {
        'P'
    } else if kind == 6 {
        'C'
    } else if kind == 7 {
        'g'
    } else if kind == 8 {
        if flags == 0x80 {
            'c'
        } else if flags == 0x40 {
            'L'
        } else {
            'T'
        }
    } else if kind == 9 {
        'U'
    } else {
        'a'
    }
}

/// The Steam3 text (`[U:1:22202]`) that `steamid_ng` renders for a 64-bit
/// id: `[`, the letter of its account type, `:`, the universe, `:`, the
/// account number, then, for a multiseat account, an anonymous game server
/// or an individual account whose instance type is not the desktop one (1),
/// `:` and the instance, and `]`. `None` where `steamid_ng` refuses the id.
pub open spec fn spec_steam3(id: u64) -> Option<Seq<char>> {
    if !steamid_valid(id) {
        None
    } else {
        let kind = account_kind(id);
        let inst = instance_of(id);
        let head = "["@ + seq![steam3_letter(kind, inst >> 12u64)] + ":"@ + spec_decimal(universe_of(id) as nat) + ":"@
            + spec_decimal(account_of(id) as nat);
        if kind == 2 || kind == 4 || (kind == 1 && inst & 0xFFFu64 != 1) {
            Some(head + ":"@ + spec_decimal(inst as nat) + "]"@)
        } else {
            Some(head + "]"@)
        }
    }
}

/// The 64-bit id that `steamid_ng` reads from Steam3 text, or `None` where
/// the text is not a valid Steam3 id.
pub uninterp spec fn spec_from_steam3(text: Seq<char>) -> Option<u64>;

/// The 64-bit id that `steamid_ng` reads from Steam2 text, or `None` where
/// the text is not a valid Steam2 id.
pub uninterp spec fn spec_from_steam2(text: Seq<char>) -> Option<u64>;

/// `SteamID::try_from(u64)` followed by `SteamID::steam2`: the Steam2 text
/// of the id (see `spec_steam2`).
#[verifier::external_body]
pub fn steam2_of(id: u64) -> (r: Option<String>)
    ensures
        r.deep_view() == spec_steam2(id),
{
    match SteamID::try_from(id) {
        Ok(s) => Some(s.steam2()),
        Err(_) => None,
    }
}

/// `SteamID::try_from(u64)` followed by `SteamID::steam3`: the Steam3 text
/// of the id (see `spec_steam3`).
#[verifier::external_body]
pub fn steam3_of(id: u64) -> (r: Option<String>)
    ensures
        r.deep_view() == spec_steam3(id),
{
    match SteamID::try_from(id) {
        Ok(s) => Some(s.steam3()),
        Err(_) => None,
    }
}

/// `SteamID::from_steam3` followed by `u64::from`: the id of Steam3 text.
#[verifier::external_body]
pub fn from_steam3(text: &str) -> (r: Option<u64>)
    ensures
        r == spec_from_steam3(text@),
{
    match SteamID::from_steam3(text) {
        Ok(s) => Some(u64::from(s)),
        Err(_) => None,
    }
}

/// `SteamID::from_steam2` followed by `u64::from`: the id of Steam2 text.
#[verifier::external_body]
pub fn from_steam2(text: &str) -> (r: Option<u64>)
    ensures
        r == spec_from_steam2(text@),
{
    match SteamID::from_steam2(text) {
        Ok(s) => Some(u64::from(s)),
        Err(_) => None,
    }
}

} // verus!

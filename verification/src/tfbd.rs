//! Player lists in the format of TF2 Bot Detector, and the rules it matches
//! player names and chat with. Reading the files is left to the
//! application.
use crate::steamid::{from_steam2, from_steam3, spec_from_steam2, spec_from_steam3};
use vstd::prelude::*;

verus! {

/// A TF2 Bot Detector player list.
pub struct TF2BotDetectorPlayerListSchema {
    pub schema: String,
    pub file_info: Option<FileInfo>,
    pub players: Option<Vec<TfbdPlayerlistEntry>>,
}

/// Who made a list, what it is, and where a newer one is found.
pub struct FileInfo {
    pub authors: Vec<String>,
    pub title: String,
    pub description: String,
    pub update_url: Option<String>,
}

/// A player of a list.
pub struct TfbdPlayerlistEntry {
    pub steamid: SteamIdFormat,
    pub attributes: Vec<TfbdPlayerAttributes>,
    pub proof: Option<Vec<String>>,
    pub last_seen: LastSeen,
}

/// A SteamID as a list writes it: as text (Steam3 or Steam2), or as its
/// 64-bit value.
pub enum SteamIdFormat {
    SteamIdString(String),
    SteamIdInteger(i64),
}

/// The 64-bit SteamID a list entry names: text reads as Steam3, else as
/// Steam2; a number is taken as the 64-bit value, its bits unchanged.
pub open spec fn spec_steamid_of(f: SteamIdFormat) -> Option<u64> {
    match f {
        SteamIdFormat::SteamIdString(s) => match spec_from_steam3(s@) {
            Some(id) => Some(id),
            None => spec_from_steam2(s@),
        },
        SteamIdFormat::SteamIdInteger(i) => Some(i as u64),
    }
}

impl SteamIdFormat {
    /// The 64-bit SteamID the entry names (see `spec_steamid_of`), or an
    /// error where its text reads in neither format.
    pub fn to_steamid(&self) -> (r: Result<u64, &'static str>)
        ensures
            match r {
                Ok(id) => spec_steamid_of(*self) == Some(id),
                Err(_) => spec_steamid_of(*self) is None,
            },
    {
        match self {
            SteamIdFormat::SteamIdString(s) => match from_steam3(s.as_str()) {
                Some(id) => Ok(id),
                None => match from_steam2(s.as_str()) {
                    Some(id) => Ok(id),
                    None => Err("Failed to convert from both steam3 and steam2 formats"),
                },
            },
            SteamIdFormat::SteamIdInteger(i) => Ok(*i as u64),
        }
    }
}

/// When a player was last seen, and by what name.
pub struct LastSeen {
    pub player_name: Option<String>,
    pub time: i64,
}

/// What a list says of a player.
#[derive(Debug, Clone, Copy, PartialEq, Eq, Structural)]
pub enum TfbdPlayerAttributes {
    Cheater,
    Suspicious,
    Exploiter,
    Racist,
}

/// The newer list to fetch in place of `data`: where it holds no players
/// and names an update URL, that URL.
pub fn update_url_to_fetch(data: &TF2BotDetectorPlayerListSchema) -> (r: Option<&String>)
    ensures
        match r {
            Some(u) => (match data.players {
                Some(ps) => ps@.len() == 0,
                None => true,
            }) && (data.file_info matches Some(fi) && fi.update_url == Some(*u)),
            None => (match data.players {
                Some(ps) => ps@.len() > 0,
                None => false,
            }) || !(data.file_info matches Some(fi) && fi.update_url is Some),
        },
{
    let empty = match &data.players {
        Some(ps) => ps.len() == 0,
        None => true,
    };
    if !empty {
        return None;
    }
    match &data.file_info {
        Some(fi) => match &fi.update_url {
            Some(u) => Some(u),
            None => None,
        },
        None => None,
    }
}

/// A rule that matches text, such as a player's name.
pub struct TfbdTextMatch {
    pub description: String,
    pub properties: TextMatchProperties,
    pub required: Vec<String>,
}

/// How a rule matches text: its mode, its patterns, and whether case
/// counts.
pub struct TextMatchProperties {
    pub mode: TextMatchMode,
    pub patterns: Vec<String>,
    pub case_sensitive: Option<bool>,
}

/// How a pattern is compared with text.
#[derive(Debug, Clone, Copy, PartialEq, Eq, Structural)]
pub enum TextMatchMode {
    Equal,
    Contains,
    StartsWith,
    EndsWith,
    Regex,
    Word,
}

} // verus!

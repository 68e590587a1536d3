pub mod io;
pub mod caption;
pub mod command_manager;
pub mod console;
pub mod demo;
pub mod event_loop;
pub mod events;
pub mod json;
pub mod launchoptions;
pub mod maps;
pub mod masterbase;
pub mod new_players;
pub mod parties;
pub mod player;
pub mod player_records;
pub mod server;
pub mod settings;
pub mod sse_events;
pub mod state;
pub mod steam_api;
pub mod steamhistory_api;
pub mod steamid;
pub mod text;
pub mod tfbd;
pub mod time;
pub mod vdf;
pub mod web;

//! The logic of the sound board: the store of sound entries, the protocol
//! spoken with the playback bot, the login and guard decisions, the rules
//! for naming uploaded files and the bookkeeping of the voice monitor.

pub mod controls;
pub mod dumpster_base;
pub mod index;
pub mod logged_guard;
pub mod login;
pub mod nekaj_za_znidarica;
pub mod text;
pub mod upload;
pub mod websocket_voice_monitor;
pub mod websocket_voice_monitor_server;

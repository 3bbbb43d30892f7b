//! Relay core for a multi-client real-time game lobby: the binary packet
//! codec, the per-session routing decisions and the lobby bookkeeping.

pub mod cmds;
pub mod console;
pub mod coordinator;
pub mod errors;
pub mod fixed_str;
pub mod guid;
pub mod header;
pub mod json_api;
pub mod lobby;
pub mod names;
pub mod packet;
pub mod session;
pub mod settings;
pub mod shines;
pub mod text;
pub mod wire;

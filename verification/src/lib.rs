pub mod text;
pub mod patterns;
pub mod config;
pub mod hid;
pub mod trigger_ipc;
pub mod gnome_shortcuts;
pub mod apps;
pub mod search_paths;
pub mod bridge_ws;
pub mod ports;
pub mod domain;
pub mod shell;

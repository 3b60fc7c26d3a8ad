pub mod cell;
pub mod cell_state;
pub mod cli;
pub mod client;
pub mod config;
pub mod deploy;
pub mod dns;
pub mod env;
pub mod env_state;
pub mod git;
pub mod http;
pub mod json;
pub mod laws;
pub mod log;
pub mod nix;
pub mod number;
pub mod order;
pub mod path;
pub mod payload;
pub mod proxy;
pub mod registered;
pub mod remote;
pub mod rules;
pub mod secrets;
pub mod server;
pub mod server_init;
pub mod session;
pub mod shell;
pub mod ssh;
pub mod table;
pub mod text;
pub mod transport;
pub mod tunnel;
pub mod vm;
pub mod worktree;

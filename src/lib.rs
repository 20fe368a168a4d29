//! A small RPC channel to a remote agent over SSH: the wire protocol and its
//! JSON form, the agent's command dispatcher and introspection parsers, the
//! client's session, presence probe and deployment decisions, and the SSH
//! configuration reader that resolves a host alias's user.

pub mod proto;
pub mod text;
pub mod wire;
pub mod response_json;
pub mod listing;
pub mod agent;
pub mod facts;
pub mod services;
pub mod probe;
pub mod deploy;
pub mod session;
pub mod sshcfg;
pub mod config_text;
pub mod state;


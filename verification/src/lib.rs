//! Screenshots as an API, together with the parts that surround them: API keys,
//! target filtering, reverse tunnels, the render engines' decisions and the
//! command-line client.

pub mod chrome;
pub mod client;
pub mod config;
pub mod crypto;
pub mod engine;
pub mod error;
pub mod frame;
pub mod handlers;
pub mod json;
pub mod key_cli;
pub mod key_laws;
pub mod keys;
pub mod laws;
pub mod net;
pub mod reload;
pub mod renderer;
pub mod socks;
pub mod ssrf;
pub mod streams;
pub mod target;
pub mod text;
pub mod tunnel;

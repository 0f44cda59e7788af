//! What holds of the operations of the library, in terms of what goes in and what
//! comes out.

pub mod engines;
pub mod handlers;
pub mod json;
pub mod keys;
pub mod net;
pub mod servers;
pub mod shot;
pub mod ssrf;
pub mod text;
pub mod tunnels;
pub mod values;
pub mod wire;

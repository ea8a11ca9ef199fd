//! Protocol logic of a small Minecraft proxy: packet ids per protocol
//! version, the wire codec, packet builders, and the per-connection
//! decision logic of the client and server relays.

pub mod packets;
pub mod packet;
pub mod protocol;
pub mod wire;
pub mod codec;
pub mod names;
pub mod servers;
pub mod command;
pub mod error;
pub mod blob;
pub mod messages;
pub mod client;
pub mod login;
pub mod plugin;
pub mod join;
pub mod server;
pub mod laws;

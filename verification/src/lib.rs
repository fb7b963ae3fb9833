//! Verified core of a WireGuard tunnel manager: the profile store, the
//! DNS leak-prevention manager, the boot-time autostart registry, and the
//! connection lifecycle controller.  All outside work — processes, files,
//! the network, the terminal — is performed by the embedding program, which
//! feeds results back into the verified state machines defined here.

pub mod api;
pub mod app;
pub mod autostart;
pub mod config;
pub mod firewall;
pub mod server;
pub mod text;
pub mod wireguard;

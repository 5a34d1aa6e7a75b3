//! Verified core of a peer-to-peer VPN manager.

pub mod crypto;
pub mod menu;
pub mod network;
pub mod peers;
mod random;
pub mod saved;
pub mod session;
pub mod state;
pub mod subnet;
pub mod text;
pub mod updater;
pub mod wire;

//! A network that this machine has joined.

use crate::peers::{PeerTable, PeerView};
use crate::wire::Role;
use vstd::prelude::*;

verus! {

/// How a network is set up on this machine.
pub struct NetworkConfig {
    pub key: [u8; 32],
    pub subnet_ip: String,
    pub subnet_mask: u8,
    pub port: u16,
}

/// The content of a `NetworkConfig`.
pub struct ConfigView {
    pub key: Seq<u8>,
    pub subnet_ip: Seq<char>,
    pub subnet_mask: u8,
    pub port: u16,
}

impl View for NetworkConfig {
    type V = ConfigView;

    open spec fn view(&self) -> ConfigView {
        ConfigView {
            key: self.key@,
            subnet_ip: self.subnet_ip@,
            subnet_mask: self.subnet_mask,
            port: self.port,
        }
    }
}

/// A network that this machine has joined, with the members known so far.
pub struct Network {
    pub name: String,
    pub owner: String,
    pub my_role: Role,
    pub my_virtual_ip: String,
    pub config: NetworkConfig,
    pub peers: PeerTable,
}

/// The content of a `Network`.
pub struct NetworkView {
    pub name: Seq<char>,
    pub owner: Seq<char>,
    pub my_role: Role,
    pub my_virtual_ip: Seq<char>,
    pub config: ConfigView,
    pub peers: Seq<(Seq<char>, PeerView)>,
}

impl View for Network {
    type V = NetworkView;

    open spec fn view(&self) -> NetworkView {
        NetworkView {
            name: self.name@,
            owner: self.owner@,
            my_role: self.my_role,
            my_virtual_ip: self.my_virtual_ip@,
            config: self.config@,
            peers: self.peers@,
        }
    }
}

} // verus!

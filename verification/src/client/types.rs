//! What a client knows: its network and the peers in it.

use vstd::prelude::*;

use crate::shared::addr::{Ipv4, SockAddr};

verus! {

/// Another member of the network.
#[derive(Clone, Copy, Debug, PartialEq, Eq, Structural)]
pub struct Peer {
    /// The public address of the peer: its identity.
    pub sock_addr: SockAddr,
    /// The private address of the peer; unspecified until it is discovered.
    pub private_ip: Ipv4,
}

impl Peer {
    pub fn new(sock_addr: SockAddr, private_ip: Option<Ipv4>) -> (peer: Peer)
        ensures
            peer.sock_addr == sock_addr,
            peer.private_ip == (match private_ip {
                Some(ip) => ip,
                None => Ipv4::spec_unspecified(),
            }),
    {
        Peer {
            sock_addr,
            private_ip: match private_ip {
                Some(ip) => ip,
                None => Ipv4::unspecified(),
            },
        }
    }

    /// The private address of the peer is known.
    pub open spec fn spec_is_discovered(&self) -> bool {
        !self.private_ip.spec_is_unspecified()
    }

    #[verifier::when_used_as_spec(spec_is_discovered)]
    pub fn is_discovered(&self) -> (b: bool)
        ensures
            b == self.spec_is_discovered(),
    {
        !self.private_ip.is_unspecified()
    }
}

/// The virtual network as a client sees it.
#[derive(Debug, PartialEq, Eq)]
pub struct Network {
    pub encrypted: bool,
    /// The symmetric key; all zero where the network is not encrypted.
    pub key: [u8; 32],
    pub net_id: String,
    pub salt: [u8; 16],
    pub peers: Vec<Peer>,
    /// This client's private address; unspecified until it is assigned.
    pub private_ip: Ipv4,
}

/// A network as plain values.
pub struct NetworkView {
    pub encrypted: bool,
    pub key: Seq<u8>,
    pub net_id: Seq<char>,
    pub salt: Seq<u8>,
    pub peers: Seq<Peer>,
    pub private_ip: Ipv4,
}

impl View for Network {
    type V = NetworkView;

    open spec fn view(&self) -> NetworkView {
        NetworkView {
            encrypted: self.encrypted,
            key: self.key@,
            net_id: self.net_id@,
            salt: self.salt@,
            peers: self.peers@,
            private_ip: self.private_ip,
        }
    }
}

impl Network {
    /// A network in which this client has no private address yet.
    pub fn new(
        encrypted: bool,
        key: [u8; 32],
        net_id: String,
        salt: [u8; 16],
        peers: Vec<Peer>,
    ) -> (network: Network)
        ensures
            network@ == (NetworkView {
                encrypted,
                key: key@,
                net_id: net_id@,
                salt: salt@,
                peers: peers@,
                private_ip: Ipv4::spec_unspecified(),
            }),
    {
        Network { encrypted, key, net_id, salt, peers, private_ip: Ipv4::unspecified() }
    }
}

/// The public address of this client as it is announced: in clear or
/// encrypted, with the IV it was encrypted under.
#[derive(Debug, PartialEq, Eq)]
pub struct EncryptablePulicSockAddr {
    pub iv: [u8; 16],
    pub sock_addr: Vec<u8>,
}

impl EncryptablePulicSockAddr {
    pub fn new(iv: [u8; 16], sock_addr: Vec<u8>) -> (addr: EncryptablePulicSockAddr)
        ensures
            addr.iv == iv,
            addr.sock_addr == sock_addr,
    {
        EncryptablePulicSockAddr { iv, sock_addr }
    }
}

} // verus!

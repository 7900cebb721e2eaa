//! The bootstrap of a client: the order of its steps, the address it takes
//! and what it announces.

use vstd::prelude::*;

use crate::client::net::{seal_field, spec_open_field, spec_password_bytes, spec_seal_field};
use crate::client::tun::spec_discovered;
use crate::client::types::{EncryptablePulicSockAddr, Network, NetworkView, Peer};
use crate::shared::addr::Ipv4;
use crate::shared::crypto::{derive_key_from_password, random_block, spec_derive_key};
use crate::shared::seqs::{lemma_filter_empty, lemma_filter_step};
use crate::shared::text::encode_text;
use crate::shared::wire::{bare, zero_block, zero_key};
use crate::{P2PMethods, DEFAULT_NETWORK_PREFIX, MAPPING_SHOT_COUNT};

verus! {

/// The steps of the bootstrap. A client goes through them in this order and
/// never back; it sends a heartbeat only where it joined a network that
/// existed.
#[derive(Clone, Copy, Debug, PartialEq, Eq, Structural)]
pub enum BootstrapStep {
    QueryPublicAddress,
    JoinOrCreateNetwork,
    Heartbeat,
    PunchPeers,
    AssignPrivateAddress,
    HelloPeers,
    SteadyState,
}

impl BootstrapStep {
    /// The place of the step in the order of the bootstrap.
    pub open spec fn rank(self) -> nat {
        match self {
            BootstrapStep::QueryPublicAddress => 0,
            BootstrapStep::JoinOrCreateNetwork => 1,
            BootstrapStep::Heartbeat => 2,
            BootstrapStep::PunchPeers => 3,
            BootstrapStep::AssignPrivateAddress => 4,
            BootstrapStep::HelloPeers => 5,
            BootstrapStep::SteadyState => 6,
        }
    }

    /// The step that follows this one; `joined_existing` tells whether the
    /// network existed when the client asked for it.
    pub open spec fn spec_next(self, joined_existing: bool) -> BootstrapStep {
        match self {
            BootstrapStep::QueryPublicAddress => BootstrapStep::JoinOrCreateNetwork,
            BootstrapStep::JoinOrCreateNetwork => if joined_existing {
                BootstrapStep::Heartbeat
            } else {
                BootstrapStep::PunchPeers
            },
            BootstrapStep::Heartbeat => BootstrapStep::PunchPeers,
            BootstrapStep::PunchPeers => BootstrapStep::AssignPrivateAddress,
            BootstrapStep::AssignPrivateAddress => BootstrapStep::HelloPeers,
            BootstrapStep::HelloPeers => BootstrapStep::SteadyState,
            BootstrapStep::SteadyState => BootstrapStep::SteadyState,
        }
    }

    /// The first step.
    pub fn first() -> (step: BootstrapStep)
        ensures
            step == BootstrapStep::QueryPublicAddress,
    {
        BootstrapStep::QueryPublicAddress
    }

    /// The step that follows this one.
    pub fn next(self, joined_existing: bool) -> (step: BootstrapStep)
        ensures
            step == self.spec_next(joined_existing),
    {
        match self {
            BootstrapStep::QueryPublicAddress => BootstrapStep::JoinOrCreateNetwork,
            BootstrapStep::JoinOrCreateNetwork => if joined_existing {
                BootstrapStep::Heartbeat
            } else {
                BootstrapStep::PunchPeers
            },
            BootstrapStep::Heartbeat => BootstrapStep::PunchPeers,
            BootstrapStep::PunchPeers => BootstrapStep::AssignPrivateAddress,
            BootstrapStep::AssignPrivateAddress => BootstrapStep::HelloPeers,
            BootstrapStep::HelloPeers => BootstrapStep::SteadyState,
            BootstrapStep::SteadyState => BootstrapStep::SteadyState,
        }
    }
}

/// The bootstrap only goes forward, and stays in the steady state once it is
/// there.
pub proof fn bootstrap_goes_forward(step: BootstrapStep, joined_existing: bool)
    ensures
        step != BootstrapStep::SteadyState ==> step.spec_next(joined_existing).rank() > step.rank(),
        step == BootstrapStep::SteadyState ==> step.spec_next(joined_existing) == step,
        step.spec_next(joined_existing) == BootstrapStep::Heartbeat ==> joined_existing,
{
}

/// The datagram of a hole-punching salvo: a no-op.
pub fn punch_datagram() -> (datagram: Vec<u8>)
    ensures
        datagram@ == seq![P2PMethods::DO_NOTHING.spec_code()],
{
    bare(P2PMethods::DO_NOTHING.code())
}

/// The datagrams of one hole-punching salvo: `MAPPING_SHOT_COUNT` no-ops.
pub fn punch_salvo() -> (salvo: Vec<Vec<u8>>)
    ensures
        salvo@.len() == MAPPING_SHOT_COUNT,
        forall|i: int|
            0 <= i < salvo@.len() ==> (#[trigger] salvo@[i])@ == seq![
                P2PMethods::DO_NOTHING.spec_code(),
            ],
{
    let mut salvo: Vec<Vec<u8>> = Vec::new();
    let mut shot: u8 = 0;
    while shot < MAPPING_SHOT_COUNT
        invariant
            shot <= MAPPING_SHOT_COUNT,
            salvo@.len() == shot,
            forall|i: int|
                0 <= i < salvo@.len() ==> (#[trigger] salvo@[i])@ == seq![
                    P2PMethods::DO_NOTHING.spec_code(),
                ],
        decreases MAPPING_SHOT_COUNT - shot,
    {
        salvo.push(punch_datagram());
        shot += 1;
    }
    salvo
}

/// The network that a client founds where none has the id: encrypted under
/// the key derived from the password and `salt` where a password is given,
/// in clear with a zero key and a zero salt where none is. It has no peers.
pub open spec fn spec_found_network(
    network_id: Seq<char>,
    password: Option<Seq<u8>>,
    salt: Seq<u8>,
) -> NetworkView {
    NetworkView {
        encrypted: password is Some,
        key: match password {
            Some(p) => spec_derive_key(p, salt),
            None => Seq::new(32, |i: int| 0u8),
        },
        net_id: network_id,
        salt: match password {
            Some(_) => salt,
            None => Seq::new(16, |i: int| 0u8),
        },
        peers: Seq::empty(),
        private_ip: Ipv4::spec_unspecified(),
    }
}

/// Founds a network with the salt `salt`.
pub fn found_network(network_id: String, password: &Option<String>, salt: [u8; 16]) -> (network:
    Network)
    ensures
        network@ == spec_found_network(network_id@, spec_password_bytes(*password), salt@),
{
    match password {
        Some(p) => {
            let bytes = encode_text(p.as_str());
            let key = derive_key_from_password(bytes.as_slice(), salt.as_slice());
            Network::new(true, key, network_id, salt, Vec::new())
        },
        None => Network::new(false, zero_key(), network_id, zero_block(), Vec::new()),
    }
}

/// Founds a network, with a salt of its own where a password is given.
pub fn create_network(network_id: String, password: &Option<String>) -> (network: Network)
    ensures
        exists|salt: Seq<u8>|
            salt.len() == 16 && network@ == #[trigger] spec_found_network(
                network_id@,
                spec_password_bytes(*password),
                salt,
            ),
{
    let salt = random_block();
    let network = found_network(network_id, password, salt);
    assert(salt@.len() == 16);
    network
}

/// Some peer whose private address is known has `octet` as its host octet.
pub open spec fn spec_claims(peers: Seq<Peer>, octet: int) -> bool {
    exists|i: int|
        0 <= i < peers.len() && (#[trigger] peers[i]).spec_is_discovered() && peers[i].private_ip.d
            == octet
}

/// `octet` is the lowest host octet from 1 to 254 that no peer claims.
pub open spec fn spec_is_lowest_free(peers: Seq<Peer>, octet: int) -> bool {
    &&& 1 <= octet <= 254
    &&& !spec_claims(peers, octet)
    &&& forall|o: int| 1 <= o < octet ==> spec_claims(peers, o)
}

/// Every host octet from 1 to 254 is claimed.
pub open spec fn spec_all_claimed(peers: Seq<Peer>) -> bool {
    forall|o: int| 1 <= o <= 254 ==> spec_claims(peers, o)
}

/// The private address with the host octet `octet`.
pub open spec fn spec_private_address(octet: u8) -> Ipv4 {
    Ipv4 {
        a: DEFAULT_NETWORK_PREFIX[0],
        b: DEFAULT_NETWORK_PREFIX[1],
        c: DEFAULT_NETWORK_PREFIX[2],
        d: octet,
    }
}

/// Finds the lowest host octet from 1 to 254 that no peer with a known
/// private address claims; `None` where every one is claimed.
pub fn lowest_free_octet(peers: &Vec<Peer>) -> (r: Option<u8>)
    ensures
        r matches Some(octet) ==> spec_is_lowest_free(peers@, octet as int),
        r is None ==> spec_all_claimed(peers@),
{
    let mut used: [bool; 256] = [false; 256];
    let mut i: usize = 0;
    while i < peers.len()
        invariant
            i <= peers@.len(),
            forall|o: int|
                0 <= o < 256 ==> (#[trigger] used[o] <==> exists|j: int|
                    0 <= j < i && (#[trigger] peers@[j]).spec_is_discovered()
                        && peers@[j].private_ip.d == o),
        decreases peers@.len() - i,
    {
        let ghost before = used;
        if peers[i].is_discovered() {
            let octet = peers[i].private_ip.d as usize;
            used[octet] = true;
        }
        assert forall|o: int| 0 <= o < 256 implies (#[trigger] used[o] <==> exists|j: int|
            0 <= j < i + 1 && (#[trigger] peers@[j]).spec_is_discovered() && peers@[j].private_ip.d
                == o) by {
            if used[o] {
                if before[o] {
                    let j = choose|j: int|
                        0 <= j < i && (#[trigger] peers@[j]).spec_is_discovered()
                            && peers@[j].private_ip.d == o;
                    assert(peers@[j].spec_is_discovered() && peers@[j].private_ip.d == o);
                } else {
                    assert(peers@[i as int].spec_is_discovered() && peers@[i as int].private_ip.d
                        == o);
                }
            } else {
                assert(!before[o]);
            }
        }
        i += 1;
    }
    let mut octet: u8 = 1;
    while octet < 255
        invariant
            1 <= octet <= 255,
            forall|o: int| 0 <= o < 256 ==> (#[trigger] used[o] <==> spec_claims(peers@, o)),
            forall|o: int| 1 <= o < octet ==> spec_claims(peers@, o),
        decreases 255 - octet,
    {
        if !used[octet as usize] {
            assert(!spec_claims(peers@, octet as int));
            return Some(octet);
        }
        assert(used[octet as int]);
        octet += 1;
    }
    None
}

/// Keeps the peers whose private address is known.
pub fn retain_discovered(peers: &mut Vec<Peer>)
    ensures
        final(peers)@ == old(peers)@.filter(spec_discovered()),
{
    let ghost before = peers@;
    let ghost pred = spec_discovered();
    let mut kept: Vec<Peer> = Vec::new();
    let mut i: usize = 0;
    proof {
        lemma_filter_empty(before, pred);
    }
    while i < peers.len()
        invariant
            i <= peers@.len(),
            peers@ == before,
            pred == spec_discovered(),
            kept@ == before.take(i as int).filter(pred),
        decreases peers@.len() - i,
    {
        proof {
            lemma_filter_step(before, pred, i as int);
        }
        if peers[i].is_discovered() {
            kept.push(peers[i]);
        }
        i += 1;
    }
    assert(before.take(before.len() as int) =~= before);
    *peers = kept;
}

/// Records the private address that the peer at `index` answered a query
/// with. An index beyond the peers changes nothing.
pub fn record_private_ip(network: &mut Network, index: usize, ip: Ipv4)
    ensures
        final(network)@ == (NetworkView {
            peers: if index < old(network)@.peers.len() {
                old(network)@.peers.update(
                    index as int,
                    Peer { private_ip: ip, ..old(network)@.peers[index as int] },
                )
            } else {
                old(network)@.peers
            },
            ..old(network)@
        }),
{
    if index < network.peers.len() {
        let peer = network.peers[index];
        network.peers.set(index, Peer { sock_addr: peer.sock_addr, private_ip: ip });
    }
}

/// Assigns this client its private address: the lowest host octet from 1 to
/// 254 that no peer with a known private address claims, in the network's
/// prefix. The peers whose private address is not known are dropped. Where
/// every octet is claimed, nothing changes and `None` is returned.
pub fn assign_private_address(network: &mut Network) -> (r: Option<Ipv4>)
    ensures
        r matches Some(ip) ==> {
            &&& spec_is_lowest_free(old(network)@.peers, ip.d as int)
            &&& ip == spec_private_address(ip.d)
            &&& final(network)@ == (NetworkView {
                private_ip: ip,
                peers: old(network)@.peers.filter(spec_discovered()),
                ..old(network)@
            })
        },
        r is None ==> spec_all_claimed(old(network)@.peers) && final(network)@ == old(network)@,
{
    match lowest_free_octet(&network.peers) {
        Some(octet) => {
            let ip = Ipv4 {
                a: DEFAULT_NETWORK_PREFIX[0],
                b: DEFAULT_NETWORK_PREFIX[1],
                c: DEFAULT_NETWORK_PREFIX[2],
                d: octet,
            };
            network.private_ip = ip;
            retain_discovered(&mut network.peers);
            Some(ip)
        },
        None => None,
    }
}

/// At most one octet is the lowest free one.
pub proof fn lowest_free_is_unique(peers: Seq<Peer>, x: int, y: int)
    requires
        spec_is_lowest_free(peers, x),
        spec_is_lowest_free(peers, y),
    ensures
        x == y,
{
    if x < y {
        assert(spec_claims(peers, x));
    } else if y < x {
        assert(spec_claims(peers, y));
    }
}

/// The address that this client announces: the text of its public address,
/// encrypted under `iv` where the network is encrypted. `None` where the
/// text is longer than 255 bytes.
pub fn seal_public_address(text: &[u8], encrypted: bool, key: &[u8; 32], iv: [u8; 16]) -> (r:
    Option<EncryptablePulicSockAddr>)
    ensures
        r is Some <==> text@.len() <= 255,
        r matches Some(addr) ==> addr.iv == iv && addr.sock_addr@ == spec_seal_field(
            encrypted,
            key@,
            iv@,
            text@,
        ) && spec_open_field(encrypted, key@, iv@, addr.sock_addr@) == Some(text@),
{
    if text.len() > 255 {
        return None;
    }
    let sealed = seal_field(encrypted, key, &iv, text);
    Some(EncryptablePulicSockAddr::new(iv, sealed))
}

} // verus!

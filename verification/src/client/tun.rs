//! The data plane, outbound: where a packet from the virtual interface goes
//! and what is sent there.

use vstd::prelude::*;

use crate::client::net::{
    seal_field, spec_message_iv, spec_peer_action, spec_seal_field, PeerActionView,
};
use crate::client::types::{Network, NetworkView, Peer};
use crate::shared::addr::{Ipv4, SockAddr};
use crate::shared::crypto::random_block;
use crate::shared::seqs::{
    first_index, lemma_filter_empty, lemma_filter_step, lemma_first_index, lemma_first_index_is,
    lemma_first_index_none,
};
use crate::shared::wire::{p2p_message, p2p_message_round_trip, spec_p2p_message, zero_block};
use crate::{P2PMethods, DEST_IN_IPV4_OFFSET, IPV4_SIZE, IP_BUFFER_SIZE};

verus! {

/// A frame and the peers it goes to.
#[derive(Debug, PartialEq, Eq)]
pub struct Outbound {
    pub frame: Vec<u8>,
    pub destinations: Vec<SockAddr>,
}

/// The destination address in the header of an IPv4 packet; `None` where the
/// packet is too short to have one.
pub open spec fn spec_destination(packet: Seq<u8>) -> Option<Ipv4> {
    if packet.len() < DEST_IN_IPV4_OFFSET + IPV4_SIZE {
        None
    } else {
        Some(
            Ipv4 {
                a: packet[DEST_IN_IPV4_OFFSET as int],
                b: packet[DEST_IN_IPV4_OFFSET + 1],
                c: packet[DEST_IN_IPV4_OFFSET + 2],
                d: packet[DEST_IN_IPV4_OFFSET + 3],
            },
        )
    }
}

/// The address is the broadcast address of the subnet.
pub open spec fn spec_is_broadcast(dst: Ipv4) -> bool {
    dst.d == 255
}

/// The peer's private address is known.
pub open spec fn spec_discovered() -> spec_fn(Peer) -> bool {
    |p: Peer| p.spec_is_discovered()
}

/// The peer's private address is known and is `dst`.
pub open spec fn spec_has_private_ip(dst: Ipv4) -> spec_fn(Peer) -> bool {
    |p: Peer| p.spec_is_discovered() && p.private_ip == dst
}

/// Where a packet for `dst` goes: to every peer whose private address is
/// known where `dst` is the broadcast address, else to the first peer with
/// that private address, else nowhere.
pub open spec fn spec_route(peers: Seq<Peer>, dst: Ipv4) -> Seq<SockAddr> {
    if spec_is_broadcast(dst) {
        peers.filter(spec_discovered()).map_values(|p: Peer| p.sock_addr)
    } else {
        match first_index(peers, spec_has_private_ip(dst)) {
            Some(i) => seq![peers[i].sock_addr],
            None => Seq::empty(),
        }
    }
}

/// The frame that carries a packet: the method, the IV, the packet, encrypted
/// where the network is.
pub open spec fn spec_frame(encrypted: bool, key: Seq<u8>, packet: Seq<u8>, fresh: Seq<u8>) -> Seq<
    u8,
> {
    let iv = spec_message_iv(encrypted, fresh);
    spec_p2p_message(
        P2PMethods::PACKET.spec_code(),
        iv,
        spec_seal_field(encrypted, key, iv, packet),
    )
}

/// The addresses a packet goes to; `None` where it is dropped: it has no
/// destination address, is larger than an IP packet can be, or no peer is
/// known for it.
pub open spec fn spec_destinations(peers: Seq<Peer>, packet: Seq<u8>) -> Option<Seq<SockAddr>> {
    if packet.len() > IP_BUFFER_SIZE {
        None
    } else {
        match spec_destination(packet) {
            None => None,
            Some(dst) => if spec_route(peers, dst).len() == 0 {
                None
            } else {
                Some(spec_route(peers, dst))
            },
        }
    }
}

/// Reads the destination address of an IPv4 packet.
pub fn destination(packet: &[u8]) -> (dst: Option<Ipv4>)
    ensures
        dst == spec_destination(packet@),
{
    if packet.len() < DEST_IN_IPV4_OFFSET + IPV4_SIZE {
        None
    } else {
        Some(
            Ipv4 {
                a: packet[DEST_IN_IPV4_OFFSET],
                b: packet[DEST_IN_IPV4_OFFSET + 1],
                c: packet[DEST_IN_IPV4_OFFSET + 2],
                d: packet[DEST_IN_IPV4_OFFSET + 3],
            },
        )
    }
}

/// Finds the peers that a packet for `dst` goes to.
pub fn route(peers: &Vec<Peer>, dst: Ipv4) -> (destinations: Vec<SockAddr>)
    ensures
        destinations@ == spec_route(peers@, dst),
{
    let mut destinations: Vec<SockAddr> = Vec::new();
    let mut i: usize = 0;
    if dst.d == 255 {
        let ghost pred = spec_discovered();
        proof {
            lemma_filter_empty(peers@, pred);
        }
        while i < peers.len()
            invariant
                i <= peers@.len(),
                pred == spec_discovered(),
                destinations@ == peers@.take(i as int).filter(pred).map_values(
                    |p: Peer| p.sock_addr,
                ),
            decreases peers@.len() - i,
        {
            proof {
                lemma_filter_step(peers@, pred, i as int);
            }
            if peers[i].is_discovered() {
                destinations.push(peers[i].sock_addr);
                assert(destinations@ =~= peers@.take(i + 1).filter(pred).map_values(
                    |p: Peer| p.sock_addr,
                ));
            }
            i += 1;
        }
        assert(peers@.take(peers@.len() as int) =~= peers@);
        destinations
    } else {
        let ghost pred = spec_has_private_ip(dst);
        while i < peers.len()
            invariant
                i <= peers@.len(),
                pred == spec_has_private_ip(dst),
                !spec_is_broadcast(dst),
                destinations@.len() == 0,
                forall|j: int| 0 <= j < i ==> !pred(#[trigger] peers@[j]),
            decreases peers@.len() - i,
        {
            if peers[i].is_discovered() && peers[i].private_ip == dst {
                proof {
                    lemma_first_index_is(peers@, pred, i as int);
                }
                destinations.push(peers[i].sock_addr);
                assert(destinations@ =~= seq![peers@[i as int].sock_addr]);
                return destinations;
            }
            i += 1;
        }
        proof {
            lemma_first_index_none(peers@, pred);
        }
        assert(destinations@ =~= Seq::<SockAddr>::empty());
        destinations
    }
}

/// A packet goes only to peers whose private address is known, and a packet
/// that is not a broadcast only to a peer with the packet's destination as
/// its private address.
pub proof fn routes_reach_only_discovered_peers(peers: Seq<Peer>, dst: Ipv4, addr: SockAddr)
    requires
        spec_route(peers, dst).contains(addr),
    ensures
        exists|i: int|
            0 <= i < peers.len() && (#[trigger] peers[i]).sock_addr == addr
                && peers[i].spec_is_discovered() && (spec_is_broadcast(dst) || peers[i].private_ip
                == dst),
{
    if spec_is_broadcast(dst) {
        let kept = peers.filter(spec_discovered());
        let routed = kept.map_values(|p: Peer| p.sock_addr);
        let k = choose|k: int| 0 <= k < routed.len() && routed[k] == addr;
        peers.lemma_filter_pred(spec_discovered(), k);
        assert(kept.contains(kept[k]));
        peers.lemma_filter_contains_rev(spec_discovered(), kept[k]);
        let i = choose|i: int| 0 <= i < peers.len() && peers[i] == kept[k];
        assert(peers[i].sock_addr == addr);
    } else {
        lemma_first_index(peers, spec_has_private_ip(dst));
        match first_index(peers, spec_has_private_ip(dst)) {
            Some(i) => {
                assert(seq![peers[i].sock_addr][0] == peers[i].sock_addr);
                assert(peers[i].sock_addr == addr);
            },
            None => {
                assert(Seq::<SockAddr>::empty().len() == 0);
            },
        }
    }
}

/// A broadcast reaches every peer whose private address is known.
pub proof fn broadcast_reaches_every_discovered_peer(peers: Seq<Peer>, dst: Ipv4, i: int)
    requires
        spec_is_broadcast(dst),
        0 <= i < peers.len(),
        peers[i].spec_is_discovered(),
    ensures
        spec_route(peers, dst).contains(peers[i].sock_addr),
{
    let kept = peers.filter(spec_discovered());
    peers.lemma_filter_contains(spec_discovered(), i);
    let k = choose|k: int| 0 <= k < kept.len() && kept[k] == peers[i];
    let routed = kept.map_values(|p: Peer| p.sock_addr);
    assert(routed[k] == peers[i].sock_addr);
}

/// A packet that is not a broadcast goes to exactly one peer where some peer
/// has the destination as its private address, and is dropped only where
/// none has.
pub proof fn unicast_finds_a_peer(peers: Seq<Peer>, dst: Ipv4)
    requires
        !spec_is_broadcast(dst),
    ensures
        spec_route(peers, dst).len() <= 1,
        spec_route(peers, dst).len() == 1 <==> exists|i: int|
            0 <= i < peers.len() && (#[trigger] peers[i]).spec_is_discovered()
                && peers[i].private_ip == dst,
{
    let pred = spec_has_private_ip(dst);
    lemma_first_index(peers, pred);
    if exists|i: int|
        0 <= i < peers.len() && (#[trigger] peers[i]).spec_is_discovered() && peers[i].private_ip
            == dst {
        let i = choose|i: int|
            0 <= i < peers.len() && (#[trigger] peers[i]).spec_is_discovered()
                && peers[i].private_ip == dst;
        assert(pred(peers[i]));
    }
    match first_index(peers, pred) {
        Some(i) => {
            assert(pred(peers[i]));
        },
        None => {},
    }
}

/// Frames a packet, under the IV `fresh` where the network is encrypted. A
/// member of the same network that receives the frame delivers the packet.
pub fn frame_packet(encrypted: bool, key: &[u8; 32], packet: &[u8], fresh: &[u8; 16]) -> (frame:
    Vec<u8>)
    requires
        packet@.len() + 16 <= usize::MAX,
    ensures
        frame@ == spec_frame(encrypted, key@, packet@, fresh@),
        forall|receiver: NetworkView, src: SockAddr, iv: Seq<u8>|
            receiver.encrypted == encrypted && receiver.key == key@ ==> #[trigger] spec_peer_action(
                receiver,
                frame@,
                src,
                iv,
            ) == PeerActionView::Deliver(packet@),
{
    let iv = if encrypted {
        *fresh
    } else {
        zero_block()
    };
    let sealed = seal_field(encrypted, key, &iv, packet);
    let frame = p2p_message(P2PMethods::PACKET.code(), &iv, sealed.as_slice());
    proof {
        p2p_message_round_trip(P2PMethods::PACKET.spec_code(), iv@, sealed@);
    }
    frame
}

/// An outbound frame as plain values.
pub open spec fn outbound_view(out: Option<Outbound>) -> Option<(Seq<u8>, Seq<SockAddr>)> {
    match out {
        Some(o) => Some((o.frame@, o.destinations@)),
        None => None,
    }
}

/// What is sent for a packet, `None` where the packet is dropped.
pub open spec fn spec_outbound(network: NetworkView, packet: Seq<u8>, fresh: Seq<u8>) -> Option<
    (Seq<u8>, Seq<SockAddr>),
> {
    match spec_destinations(network.peers, packet) {
        Some(destinations) => Some(
            (spec_frame(network.encrypted, network.key, packet, fresh), destinations),
        ),
        None => None,
    }
}

/// Decides what is sent for a packet that was read from the virtual
/// interface: the frame, made under the IV `fresh` where the network is
/// encrypted, and the peers it goes to.
pub fn route_packet(packet: &[u8], network: &Network, fresh: &[u8; 16]) -> (out: Option<Outbound>)
    ensures
        outbound_view(out) == spec_outbound(network@, packet@, fresh@),
{
    if packet.len() > IP_BUFFER_SIZE {
        return None;
    }
    match destination(packet) {
        None => None,
        Some(dst) => {
            let destinations = route(&network.peers, dst);
            if destinations.len() == 0 {
                None
            } else {
                let frame = frame_packet(network.encrypted, &network.key, packet, fresh);
                Some(Outbound { frame, destinations })
            }
        },
    }
}

/// Handles a packet that was read from the virtual interface: frames it under
/// an IV of its own and finds the peers it goes to. A packet for the
/// broadcast address goes to every peer whose private address is known, any
/// other to the peer with that private address; a packet for which no peer is
/// known is dropped.
pub fn handle_ip_packet(packet: &[u8], network: &Network) -> (out: Option<Outbound>)
    ensures
        exists|fresh: Seq<u8>|
            fresh.len() == 16 && outbound_view(out) == #[trigger] spec_outbound(
                network@,
                packet@,
                fresh,
            ),
{
    let fresh = random_block();
    let out = route_packet(packet, network, &fresh);
    assert(fresh@.len() == 16);
    out
}

} // verus!

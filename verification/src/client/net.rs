//! Messages between peers: what a client does with a datagram it receives.

use vstd::prelude::*;
use vstd::utf8::encode_utf8;

use crate::client::types::{Network, NetworkView, Peer};
use crate::shared::addr::{ipv4_text_round_trip, Ipv4, SockAddr};
use crate::shared::seqs::{lemma_filter_empty, lemma_filter_step};
use crate::shared::crypto::{
    decrypt, derive_key_from_password, encrypt, random_block, spec_decrypt, spec_derive_key,
    spec_encrypt,
};
use crate::shared::text::{decode_text, encode_text, spec_decode_text};
use crate::shared::wire::{
    bare, body, copy_range, members_view, p2p_fields, p2p_message, p2p_message_round_trip,
    spec_body, spec_p2p_iv,
    spec_p2p_message, spec_p2p_payload, spec_p2p_well_formed, spec_tagged, tagged, zero_block,
    zero_key, GetResponse, GetResponseView, HeartbeatRequest, HeartbeatRequestView, MemberView,
    RegisterRequest, RegisterRequestView,
};
use crate::{
    IoError, IoErrorKind, P2PMethods, ServerErrorResponses, ServerErrorView, ServerMethods,
};

verus! {

/// Why a datagram was dropped.
#[derive(Clone, Copy, Debug, PartialEq, Eq, Structural)]
pub enum Dropped {
    /// The datagram is too short for its method.
    Malformed,
    /// The payload does not decrypt under the network's key.
    Undecryptable,
    /// The payload is not the text of an address.
    NotAnAddress,
    /// The leading byte names no method.
    UnknownMethod,
}

/// What the program is to do after a datagram from a peer.
#[derive(Debug, PartialEq, Eq)]
pub enum PeerAction {
    /// Write the packet to the virtual interface.
    Deliver(Vec<u8>),
    /// Send the datagram to the sender.
    Reply(Vec<u8>),
    /// Send a salvo of no-op datagrams to the address.
    Punch(SockAddr),
    /// Nothing: the datagram was a no-op.
    Nothing,
    /// Nothing: the datagram was dropped.
    Drop(Dropped),
}

/// An action as plain values.
pub enum PeerActionView {
    Deliver(Seq<u8>),
    Reply(Seq<u8>),
    Punch(SockAddr),
    Nothing,
    Drop(Dropped),
}

impl View for PeerAction {
    type V = PeerActionView;

    open spec fn view(&self) -> PeerActionView {
        match self {
            PeerAction::Deliver(packet) => PeerActionView::Deliver(packet@),
            PeerAction::Reply(datagram) => PeerActionView::Reply(datagram@),
            PeerAction::Punch(addr) => PeerActionView::Punch(*addr),
            PeerAction::Nothing => PeerActionView::Nothing,
            PeerAction::Drop(why) => PeerActionView::Drop(*why),
        }
    }
}

/// A field as it is read: decrypted where the network is encrypted, as it
/// stands where it is not. `None` where it does not decrypt.
pub open spec fn spec_open_field(
    encrypted: bool,
    key: Seq<u8>,
    iv: Seq<u8>,
    field: Seq<u8>,
) -> Option<Seq<u8>> {
    if encrypted {
        match spec_decrypt(key, iv, field) {
            Ok(plain) => Some(plain),
            Err(_) => None,
        }
    } else {
        Some(field)
    }
}

/// A field as it is sent: encrypted where the network is encrypted, as it
/// stands where it is not.
pub open spec fn spec_seal_field(
    encrypted: bool,
    key: Seq<u8>,
    iv: Seq<u8>,
    field: Seq<u8>,
) -> Seq<u8> {
    if encrypted {
        match spec_encrypt(key, iv, field) {
            Ok(sealed) => sealed,
            Err(_) => field,
        }
    } else {
        field
    }
}

/// Reads a field of a message.
pub fn open_field(encrypted: bool, key: &[u8; 32], iv: &[u8; 16], field: &[u8]) -> (r: Option<
    Vec<u8>,
>)
    ensures
        r is Some <==> spec_open_field(encrypted, key@, iv@, field@) is Some,
        r matches Some(plain) ==> spec_open_field(encrypted, key@, iv@, field@) == Some(plain@),
{
    if encrypted {
        match decrypt(key.as_slice(), iv.as_slice(), field) {
            Ok(plain) => Some(plain),
            Err(_) => None,
        }
    } else {
        Some(copy_range(field, 0, field.len()))
    }
}

/// Writes a field of a message.
pub fn seal_field(encrypted: bool, key: &[u8; 32], iv: &[u8; 16], field: &[u8]) -> (sealed: Vec<u8>)
    requires
        field@.len() + 16 <= usize::MAX,
    ensures
        sealed@ == spec_seal_field(encrypted, key@, iv@, field@),
        spec_open_field(encrypted, key@, iv@, sealed@) == Some(field@),
{
    if encrypted {
        match encrypt(key.as_slice(), iv.as_slice(), field) {
            Ok(sealed) => sealed,
            Err(_) => copy_range(field, 0, field.len()),
        }
    } else {
        copy_range(field, 0, field.len())
    }
}

/// The private address that a message announces in its payload.
pub open spec fn spec_announced_ip(encrypted: bool, key: Seq<u8>, datagram: Seq<u8>) -> Result<
    Ipv4,
    Dropped,
> {
    if !spec_p2p_well_formed(datagram) {
        Err(Dropped::Malformed)
    } else {
        match spec_open_field(encrypted, key, spec_p2p_iv(datagram), spec_p2p_payload(datagram)) {
            None => Err(Dropped::Undecryptable),
            Some(text) => match Ipv4::spec_from_text(text) {
                Some(ip) => Ok(ip),
                None => Err(Dropped::NotAnAddress),
            },
        }
    }
}

/// The public address that a message announces in its payload.
pub open spec fn spec_announced_sock_addr(
    encrypted: bool,
    key: Seq<u8>,
    datagram: Seq<u8>,
) -> Result<SockAddr, Dropped> {
    if !spec_p2p_well_formed(datagram) {
        Err(Dropped::Malformed)
    } else {
        match spec_open_field(encrypted, key, spec_p2p_iv(datagram), spec_p2p_payload(datagram)) {
            None => Err(Dropped::Undecryptable),
            Some(text) => match SockAddr::spec_from_text(text) {
                Some(addr) => Ok(addr),
                None => Err(Dropped::NotAnAddress),
            },
        }
    }
}

/// Some peer has the public address `src`.
pub open spec fn spec_knows_peer(peers: Seq<Peer>, src: SockAddr) -> bool {
    exists|i: int| 0 <= i < peers.len() && #[trigger] peers[i].sock_addr == src
}

/// The peer at `src` with its private address set to `ip`, any other peer as
/// it is.
pub open spec fn spec_readdressed(src: SockAddr, ip: Ipv4) -> spec_fn(Peer) -> Peer {
    |p: Peer|
        if p.sock_addr == src {
            Peer { sock_addr: src, private_ip: ip }
        } else {
            p
        }
}

/// The peers after the one at `src` announced `ip`: its entry holds the new
/// address, and it is added where it was not known.
pub open spec fn spec_upsert_peer(peers: Seq<Peer>, src: SockAddr, ip: Ipv4) -> Seq<Peer> {
    if spec_knows_peer(peers, src) {
        peers.map_values(spec_readdressed(src, ip))
    } else {
        peers.push(Peer { sock_addr: src, private_ip: ip })
    }
}

/// Every peer but the one at `src` with the private address `ip`.
pub open spec fn spec_stays(src: SockAddr, ip: Ipv4) -> spec_fn(Peer) -> bool {
    |p: Peer| !(p.private_ip == ip && p.sock_addr == src)
}

/// The peers after the one at `src` withdrew `ip`.
pub open spec fn spec_remove_peer(peers: Seq<Peer>, src: SockAddr, ip: Ipv4) -> Seq<Peer> {
    peers.filter(spec_stays(src, ip))
}

/// The method of a datagram, where it has one.
pub open spec fn spec_peer_method(datagram: Seq<u8>) -> Option<P2PMethods> {
    if datagram.len() == 0 {
        None
    } else {
        P2PMethods::spec_from_code(datagram[0])
    }
}

/// The peers of the network after a datagram from `src`: a hello records the
/// sender's private address, a goodbye forgets the sender, nothing else
/// changes the peers.
pub open spec fn spec_peers_after(network: NetworkView, datagram: Seq<u8>, src: SockAddr) -> Seq<
    Peer,
> {
    match spec_peer_method(datagram) {
        Some(P2PMethods::PEER_HELLO) => match spec_announced_ip(
            network.encrypted,
            network.key,
            datagram,
        ) {
            Ok(ip) => spec_upsert_peer(network.peers, src, ip),
            Err(_) => network.peers,
        },
        Some(P2PMethods::PEER_GOODBYE) => match spec_announced_ip(
            network.encrypted,
            network.key,
            datagram,
        ) {
            Ok(ip) => spec_remove_peer(network.peers, src, ip),
            Err(_) => network.peers,
        },
        _ => network.peers,
    }
}

/// The IV that a message of this network carries: `fresh` where the network
/// is encrypted, zeros where it is not.
pub open spec fn spec_message_iv(encrypted: bool, fresh: Seq<u8>) -> Seq<u8> {
    if encrypted {
        fresh
    } else {
        Seq::new(16, |i: int| 0u8)
    }
}

/// A message that carries this client's private address.
pub open spec fn spec_address_message(
    method: u8,
    encrypted: bool,
    key: Seq<u8>,
    private_ip: Ipv4,
    fresh: Seq<u8>,
) -> Seq<u8> {
    let iv = spec_message_iv(encrypted, fresh);
    spec_p2p_message(method, iv, spec_seal_field(encrypted, key, iv, private_ip.spec_text()))
}

/// What is to be done after a datagram from `src`; `fresh` is the IV for a
/// reply that needs one.
pub open spec fn spec_peer_action(
    network: NetworkView,
    datagram: Seq<u8>,
    src: SockAddr,
    fresh: Seq<u8>,
) -> PeerActionView {
    if datagram.len() == 0 {
        PeerActionView::Drop(Dropped::Malformed)
    } else {
        match spec_peer_method(datagram) {
            Some(P2PMethods::PACKET) => if !spec_p2p_well_formed(datagram) {
                PeerActionView::Drop(Dropped::Malformed)
            } else {
                match spec_open_field(
                    network.encrypted,
                    network.key,
                    spec_p2p_iv(datagram),
                    spec_p2p_payload(datagram),
                ) {
                    Some(packet) => PeerActionView::Deliver(packet),
                    None => PeerActionView::Drop(Dropped::Undecryptable),
                }
            },
            Some(P2PMethods::PEER_QUERY) => PeerActionView::Reply(
                spec_address_message(
                    P2PMethods::PEER_QUERY.spec_code(),
                    network.encrypted,
                    network.key,
                    network.private_ip,
                    fresh,
                ),
            ),
            Some(P2PMethods::PEER_HELLO) => match spec_announced_ip(
                network.encrypted,
                network.key,
                datagram,
            ) {
                Ok(_) => PeerActionView::Reply(seq![P2PMethods::PEER_HELLO.spec_code()]),
                Err(why) => PeerActionView::Drop(why),
            },
            Some(P2PMethods::PEER_GOODBYE) => match spec_announced_ip(
                network.encrypted,
                network.key,
                datagram,
            ) {
                Ok(_) => PeerActionView::Reply(seq![P2PMethods::PEER_GOODBYE.spec_code()]),
                Err(why) => PeerActionView::Drop(why),
            },
            Some(P2PMethods::NEW_CLIENT_NOTIFY) => match spec_announced_sock_addr(
                network.encrypted,
                network.key,
                datagram,
            ) {
                Ok(addr) => PeerActionView::Punch(addr),
                Err(why) => PeerActionView::Drop(why),
            },
            Some(P2PMethods::DO_NOTHING) => PeerActionView::Nothing,
            None => PeerActionView::Drop(Dropped::UnknownMethod),
        }
    }
}

/// Where the datagram is a query, the action is a reply from which a member
/// of the network reads this client's private address.
pub open spec fn spec_answers_query(
    network: NetworkView,
    datagram: Seq<u8>,
    action: PeerActionView,
) -> bool {
    spec_peer_method(datagram) == Some(P2PMethods::PEER_QUERY) ==> (action matches PeerActionView::Reply(
        reply,
    ) && spec_announced_ip(network.encrypted, network.key, reply) == Ok::<Ipv4, Dropped>(
        network.private_ip,
    ))
}

/// Reads the private address that a message announces.
pub fn announced_ip(encrypted: bool, key: &[u8; 32], datagram: &[u8]) -> (r: Result<Ipv4, Dropped>)
    ensures
        r == spec_announced_ip(encrypted, key@, datagram@),
{
    let (iv, payload) = match p2p_fields(datagram) {
        Some(fields) => fields,
        None => {
            return Err(Dropped::Malformed);
        },
    };
    match open_field(encrypted, key, &iv, payload.as_slice()) {
        None => Err(Dropped::Undecryptable),
        Some(text) => match Ipv4::from_text(text.as_slice()) {
            Some(ip) => Ok(ip),
            None => Err(Dropped::NotAnAddress),
        },
    }
}

/// Reads the public address that a message announces.
pub fn announced_sock_addr(encrypted: bool, key: &[u8; 32], datagram: &[u8]) -> (r: Result<
    SockAddr,
    Dropped,
>)
    ensures
        r == spec_announced_sock_addr(encrypted, key@, datagram@),
{
    let (iv, payload) = match p2p_fields(datagram) {
        Some(fields) => fields,
        None => {
            return Err(Dropped::Malformed);
        },
    };
    match open_field(encrypted, key, &iv, payload.as_slice()) {
        None => Err(Dropped::Undecryptable),
        Some(text) => match SockAddr::from_text(text.as_slice()) {
            Some(addr) => Ok(addr),
            None => Err(Dropped::NotAnAddress),
        },
    }
}

/// Records that the peer at `src` has the private address `ip`.
pub fn upsert_peer(peers: &mut Vec<Peer>, src: SockAddr, ip: Ipv4)
    ensures
        final(peers)@ == spec_upsert_peer(old(peers)@, src, ip),
{
    let ghost before = peers@;
    let mut found = false;
    let mut i: usize = 0;
    while i < peers.len()
        invariant
            i <= peers@.len(),
            peers@.len() == before.len(),
            forall|j: int| 0 <= j < i ==> peers@[j] == spec_readdressed(src, ip)(before[j]),
            forall|j: int| i <= j < before.len() ==> peers@[j] == before[j],
            found <==> exists|j: int| 0 <= j < i && #[trigger] before[j].sock_addr == src,
        decreases peers@.len() - i,
    {
        assert(peers@[i as int] == before[i as int]);
        if peers[i].sock_addr == src {
            peers.set(i, Peer { sock_addr: src, private_ip: ip });
            found = true;
            assert(before[i as int].sock_addr == src);
        }
        i += 1;
    }
    if found {
        assert(peers@ =~= before.map_values(spec_readdressed(src, ip)));
    } else {
        assert(peers@ =~= before);
        peers.push(Peer { sock_addr: src, private_ip: ip });
    }
}

/// Forgets the peer at `src` with the private address `ip`.
pub fn remove_peer(peers: &mut Vec<Peer>, src: SockAddr, ip: Ipv4)
    ensures
        final(peers)@ == spec_remove_peer(old(peers)@, src, ip),
{
    let ghost before = peers@;
    let mut kept: Vec<Peer> = Vec::new();
    let mut i: usize = 0;
    proof {
        lemma_filter_empty(before, spec_stays(src, ip));
    }
    while i < peers.len()
        invariant
            i <= peers@.len(),
            peers@ == before,
            kept@ == before.take(i as int).filter(spec_stays(src, ip)),
        decreases peers@.len() - i,
    {
        proof {
            lemma_filter_step(before, spec_stays(src, ip), i as int);
        }
        let p = peers[i];
        if !(p.private_ip == ip && p.sock_addr == src) {
            kept.push(p);
        }
        i += 1;
    }
    assert(before.take(before.len() as int) =~= before);
    *peers = kept;
}

/// Builds a message that carries a private address, under the IV `fresh`
/// where the network is encrypted. The receiver reads the address back from
/// it.
pub fn address_message(
    method: P2PMethods,
    encrypted: bool,
    key: &[u8; 32],
    private_ip: Ipv4,
    fresh: &[u8; 16],
) -> (out: Vec<u8>)
    ensures
        out@ == spec_address_message(method.spec_code(), encrypted, key@, private_ip, fresh@),
        out@[0] == method.spec_code(),
        spec_announced_ip(encrypted, key@, out@) == Ok::<Ipv4, Dropped>(private_ip),
{
    let text = private_ip.to_text();
    let iv = if encrypted {
        *fresh
    } else {
        zero_block()
    };
    let sealed = seal_field(encrypted, key, &iv, text.as_slice());
    let out = p2p_message(method.code(), &iv, sealed.as_slice());
    proof {
        p2p_message_round_trip(method.spec_code(), iv@, sealed@);
        ipv4_text_round_trip(private_ip);
    }
    out
}

/// Decides what to do with a datagram that `src` sent, and records what it
/// says about the peer. `fresh` is the IV of the reply, where one is sent
/// encrypted.
pub fn answer_peer(
    datagram: &[u8],
    src: SockAddr,
    network: &mut Network,
    fresh: &[u8; 16],
) -> (action: PeerAction)
    ensures
        action@ == spec_peer_action(old(network)@, datagram@, src, fresh@),
        final(network)@ == (NetworkView {
            peers: spec_peers_after(old(network)@, datagram@, src),
            ..old(network)@
        }),
        spec_answers_query(old(network)@, datagram@, action@),
{
    if datagram.len() == 0 {
        return PeerAction::Drop(Dropped::Malformed);
    }
    match P2PMethods::from_code(datagram[0]) {
        Some(P2PMethods::PACKET) => {
            let (iv, payload) = match p2p_fields(datagram) {
                Some(fields) => fields,
                None => {
                    return PeerAction::Drop(Dropped::Malformed);
                },
            };
            match open_field(network.encrypted, &network.key, &iv, payload.as_slice()) {
                Some(packet) => PeerAction::Deliver(packet),
                None => PeerAction::Drop(Dropped::Undecryptable),
            }
        },
        Some(P2PMethods::PEER_QUERY) => PeerAction::Reply(
            address_message(
                P2PMethods::PEER_QUERY,
                network.encrypted,
                &network.key,
                network.private_ip,
                fresh,
            ),
        ),
        Some(P2PMethods::PEER_HELLO) => match announced_ip(
            network.encrypted,
            &network.key,
            datagram,
        ) {
            Ok(ip) => {
                upsert_peer(&mut network.peers, src, ip);
                PeerAction::Reply(bare(P2PMethods::PEER_HELLO.code()))
            },
            Err(why) => PeerAction::Drop(why),
        },
        Some(P2PMethods::PEER_GOODBYE) => match announced_ip(
            network.encrypted,
            &network.key,
            datagram,
        ) {
            Ok(ip) => {
                remove_peer(&mut network.peers, src, ip);
                PeerAction::Reply(bare(P2PMethods::PEER_GOODBYE.code()))
            },
            Err(why) => PeerAction::Drop(why),
        },
        Some(P2PMethods::NEW_CLIENT_NOTIFY) => match announced_sock_addr(
            network.encrypted,
            &network.key,
            datagram,
        ) {
            Ok(addr) => PeerAction::Punch(addr),
            Err(why) => PeerAction::Drop(why),
        },
        Some(P2PMethods::DO_NOTHING) => PeerAction::Nothing,
        None => PeerAction::Drop(Dropped::UnknownMethod),
    }
}

/// Handles a datagram that `src` sent: decides what to do with it and records
/// what it says about the peer. A reply that is sent encrypted gets an IV of
/// its own.
pub fn handle_incoming_connection(
    datagram: &[u8],
    src: SockAddr,
    network: &mut Network,
) -> (action: PeerAction)
    ensures
        exists|fresh: Seq<u8>|
            fresh.len() == 16 && action@ == #[trigger] spec_peer_action(
                old(network)@,
                datagram@,
                src,
                fresh,
            ),
        final(network)@ == (NetworkView {
            peers: spec_peers_after(old(network)@, datagram@, src),
            ..old(network)@
        }),
        spec_answers_query(old(network)@, datagram@, action@),
{
    let fresh = random_block();
    let action = answer_peer(datagram, src, network, &fresh);
    assert(fresh@.len() == 16);
    action
}

/// After a hello the sender is known, every entry for the sender holds the
/// address it announced, and every other peer is as it was.
pub proof fn hello_records_the_sender(peers: Seq<Peer>, src: SockAddr, ip: Ipv4)
    ensures
        ({
            let after = spec_upsert_peer(peers, src, ip);
            &&& spec_knows_peer(after, src)
            &&& forall|i: int|
                0 <= i < after.len() && (#[trigger] after[i]).sock_addr == src
                    ==> after[i].private_ip == ip
            &&& forall|i: int|
                0 <= i < peers.len() && (#[trigger] peers[i]).sock_addr != src ==> after[i]
                    == peers[i]
            &&& peers.len() <= after.len() <= peers.len() + 1
            &&& after.len() == peers.len() <==> spec_knows_peer(peers, src)
        }),
{
    let after = spec_upsert_peer(peers, src, ip);
    if spec_knows_peer(peers, src) {
        let i = choose|i: int| 0 <= i < peers.len() && #[trigger] peers[i].sock_addr == src;
        assert(after[i].sock_addr == src);
    } else {
        assert(after[peers.len() as int].sock_addr == src);
        assert forall|i: int|
            0 <= i < after.len() && (#[trigger] after[i]).sock_addr == src implies after[i].private_ip
            == ip by {
            if i < peers.len() {
                assert(peers[i].sock_addr == src);
            }
        }
    }
}

/// The same hello a second time changes nothing.
pub proof fn hello_is_idempotent(peers: Seq<Peer>, src: SockAddr, ip: Ipv4)
    ensures
        spec_upsert_peer(spec_upsert_peer(peers, src, ip), src, ip) == spec_upsert_peer(
            peers,
            src,
            ip,
        ),
{
    let once = spec_upsert_peer(peers, src, ip);
    hello_records_the_sender(peers, src, ip);
    assert(spec_upsert_peer(once, src, ip) =~= once);
}

/// After a goodbye no peer is left that has both the sender's address and
/// the address it withdrew, and exactly the other peers are left.
pub proof fn goodbye_forgets_the_sender(peers: Seq<Peer>, src: SockAddr, ip: Ipv4, peer: Peer)
    ensures
        spec_remove_peer(peers, src, ip).contains(peer) <==> (peers.contains(peer) && !(
        peer.private_ip == ip && peer.sock_addr == src)),
{
    let stays = spec_stays(src, ip);
    let after = peers.filter(stays);
    if after.contains(peer) {
        let i = choose|i: int| 0 <= i < after.len() && after[i] == peer;
        peers.lemma_filter_pred(stays, i);
        peers.lemma_filter_contains_rev(stays, peer);
    }
    if peers.contains(peer) && stays(peer) {
        let i = choose|i: int| 0 <= i < peers.len() && peers[i] == peer;
        peers.lemma_filter_contains(stays, i);
    }
}

// ---------------------------------------------------------------------------
// Requests to the registrar and to peers
// ---------------------------------------------------------------------------
/// The text of the failure for a response that is not what its layout asks.
pub open spec fn spec_malformed_text() -> Seq<char> {
    "Malformed message"@
}

/// The failure for a response that is not what its layout asks.
pub open spec fn spec_malformed() -> ServerErrorView {
    ServerErrorView::IO(IoErrorKind::InvalidData, spec_malformed_text())
}

/// The text of the failure for an observed address that is not UTF-8.
pub open spec fn spec_not_text() -> Seq<char> {
    "Response is not valid UTF-8"@
}

/// The text of the failure for an encrypted network that is joined without a
/// password.
pub open spec fn spec_no_password_text() -> Seq<char> {
    "Network is encrypted but no password was provided"@
}

/// The failure for a response that is not what its layout asks.
pub fn malformed() -> (e: ServerErrorResponses)
    ensures
        e@ == spec_malformed(),
{
    ServerErrorResponses::IO(
        IoError { kind: IoErrorKind::InvalidData, message: "Malformed message".to_owned() },
    )
}

/// The request that asks the registrar for the address it sees this client
/// at.
pub fn query_request() -> (request: Vec<u8>)
    ensures
        request@ == seq![ServerMethods::QUERY.spec_code()],
{
    bare(ServerMethods::QUERY.code())
}

/// The address that a QUERY response reports.
pub open spec fn spec_query_response(response: Seq<u8>) -> Result<Seq<char>, ServerErrorView> {
    if response.len() == 0 {
        Err(spec_malformed())
    } else {
        match spec_decode_text(spec_body(response)) {
            Some(text) => Ok(text),
            None => Err(ServerErrorView::GENERAL_ERROR(spec_not_text())),
        }
    }
}

/// A result that holds a text, as plain values.
pub open spec fn text_result_view(r: Result<String, ServerErrorResponses>) -> Result<
    Seq<char>,
    ServerErrorView,
> {
    match r {
        Ok(text) => Ok(text@),
        Err(e) => Err(e@),
    }
}

/// Reads the response to a QUERY request: the text of the address that the
/// registrar sees this client at.
pub fn query_response(response: &[u8]) -> (r: Result<String, ServerErrorResponses>)
    ensures
        text_result_view(r) == spec_query_response(response@),
{
    if response.len() == 0 {
        return Err(malformed());
    }
    let text_bytes = body(response);
    match decode_text(text_bytes.as_slice()) {
        Some(text) => Ok(text),
        None => Err(ServerErrorResponses::GENERAL_ERROR("Response is not valid UTF-8".to_owned())),
    }
}

/// What a REGISTER request for a network carries.
pub open spec fn spec_register_request(
    network: NetworkView,
    public_sock_addr: Seq<u8>,
    iv: Seq<u8>,
) -> RegisterRequestView {
    RegisterRequestView {
        encrypted: network.encrypted,
        salt: network.salt,
        iv,
        net_id: encode_utf8(network.net_id),
        sock_addr: public_sock_addr,
    }
}

/// Builds the request that registers `network` with this client as its first
/// member; `None` where the id or the address is longer than 255 bytes.
pub fn register_request(network: &Network, public_sock_addr: &[u8], iv: &[u8; 16]) -> (request:
    Option<Vec<u8>>)
    ensures
        request is Some <==> spec_register_request(network@, public_sock_addr@, iv@).encodable(),
        request matches Some(bytes) ==> bytes@ == spec_register_request(
            network@,
            public_sock_addr@,
            iv@,
        ).bytes(),
{
    let fields = RegisterRequest {
        encrypted: network.encrypted,
        salt: network.salt,
        iv: *iv,
        net_id: encode_text(network.net_id.as_str()),
        sock_addr: copy_range(public_sock_addr, 0, public_sock_addr.len()),
    };
    assert(fields@.sock_addr =~= public_sock_addr@);
    fields.encode()
}

/// Builds the request that asks for the members of the network
/// `network_id`.
pub fn get_request(network_id: &str) -> (request: Vec<u8>)
    ensures
        request@ == spec_tagged(ServerMethods::GET.spec_code(), encode_utf8(network_id@)),
{
    let id = encode_text(network_id);
    tagged(ServerMethods::GET.code(), id.as_slice())
}

/// The bytes of a password, where there is one.
pub open spec fn spec_password_bytes(password: Option<String>) -> Option<Seq<u8>> {
    match password {
        Some(p) => Some(encode_utf8(p@)),
        None => None,
    }
}

/// The key of a network: derived from the password where the network is
/// encrypted, zero where it is not.
pub open spec fn spec_network_key(encrypted: bool, password: Option<Seq<u8>>, salt: Seq<u8>) -> Seq<
    u8,
> {
    match password {
        Some(p) => if encrypted {
            spec_derive_key(p, salt)
        } else {
            Seq::new(32, |i: int| 0u8)
        },
        None => Seq::new(32, |i: int| 0u8),
    }
}

/// The peer that a listed member is, where its address can be read.
pub open spec fn spec_member_peer(encrypted: bool, key: Seq<u8>) -> spec_fn(MemberView) -> Option<
    Peer,
> {
    |m: MemberView|
        match spec_open_field(encrypted, key, m.iv, m.sock_addr) {
            Some(text) => match SockAddr::spec_from_text(text) {
                Some(addr) => Some(Peer { sock_addr: addr, private_ip: Ipv4::spec_unspecified() }),
                None => None,
            },
            None => None,
        }
}

/// The network that a GET response describes. A member whose address cannot
/// be read is left out.
pub open spec fn spec_get_response(
    response: Seq<u8>,
    network_id: Seq<char>,
    password: Option<Seq<u8>>,
) -> Result<NetworkView, ServerErrorView> {
    match GetResponseView::parse(response) {
        None => Err(spec_malformed()),
        Some(listing) => if listing.encrypted && password is None {
            Err(ServerErrorView::GENERAL_ERROR(spec_no_password_text()))
        } else {
            let key = spec_network_key(listing.encrypted, password, listing.salt);
            Ok(
                NetworkView {
                    encrypted: listing.encrypted,
                    key,
                    net_id: network_id,
                    salt: listing.salt,
                    peers: listing.members.filter_map(spec_member_peer(listing.encrypted, key)),
                    private_ip: Ipv4::spec_unspecified(),
                },
            )
        },
    }
}

/// A result that holds a network, as plain values.
pub open spec fn network_result_view(r: Result<Network, ServerErrorResponses>) -> Result<
    NetworkView,
    ServerErrorView,
> {
    match r {
        Ok(network) => Ok(network@),
        Err(e) => Err(e@),
    }
}

/// Reads the response to a GET request: the network with the members whose
/// addresses can be read. A password that is given for a network that is not
/// encrypted is not used.
pub fn get_response(response: &[u8], network_id: &String, password: &Option<String>) -> (r: Result<
    Network,
    ServerErrorResponses,
>)
    ensures
        network_result_view(r) == spec_get_response(
            response@,
            network_id@,
            spec_password_bytes(*password),
        ),
{
    let listing = match GetResponse::decode(response) {
        Ok(listing) => listing,
        Err(_) => {
            return Err(malformed());
        },
    };
    let key = match password {
        Some(p) => {
            if listing.encrypted {
                let bytes = encode_text(p.as_str());
                derive_key_from_password(bytes.as_slice(), listing.salt.as_slice())
            } else {
                zero_key()
            }
        },
        None => {
            if listing.encrypted {
                return Err(
                    ServerErrorResponses::GENERAL_ERROR(
                        "Network is encrypted but no password was provided".to_owned(),
                    ),
                );
            }
            zero_key()
        },
    };
    let ghost all = members_view(listing.members@);
    let ghost read = spec_member_peer(listing.encrypted, key@);
    let mut peers: Vec<Peer> = Vec::new();
    let mut i: usize = 0;
    assert(all.take(0) =~= Seq::<MemberView>::empty());
    while i < listing.members.len()
        invariant
            i <= listing.members@.len(),
            all == members_view(listing.members@),
            read == spec_member_peer(listing.encrypted, key@),
            peers@ == all.take(i as int).filter_map(read),
        decreases listing.members@.len() - i,
    {
        let member = &listing.members[i];
        proof {
            assert(all.take(i + 1).drop_last() =~= all.take(i as int));
            assert(all.take(i + 1).last() == member@);
        }
        match open_field(listing.encrypted, &key, &member.iv, member.sock_addr.as_slice()) {
            Some(text) => match SockAddr::from_text(text.as_slice()) {
                Some(addr) => {
                    peers.push(Peer::new(addr, None));
                    assert(peers@ =~= all.take(i as int).filter_map(read) + seq![
                        Peer { sock_addr: addr, private_ip: Ipv4::spec_unspecified() },
                    ]);
                },
                None => {},
            },
            None => {},
        }
        i += 1;
    }
    assert(all.take(all.len() as int) =~= all);
    Ok(Network::new(listing.encrypted, key, network_id.clone(), listing.salt, peers))
}

/// What a HEARTBEAT request for a network carries.
pub open spec fn spec_heartbeat_request(
    network: NetworkView,
    public_sock_addr: Seq<u8>,
    iv: Seq<u8>,
) -> HeartbeatRequestView {
    HeartbeatRequestView { iv, net_id: encode_utf8(network.net_id), sock_addr: public_sock_addr }
}

/// Builds the request that announces this client as a member of `network`;
/// `None` where the id or the address is longer than 255 bytes.
pub fn send_heartbeat(network: &Network, my_public_sock_addr: &[u8], iv: &[u8; 16]) -> (request:
    Option<Vec<u8>>)
    ensures
        request is Some <==> spec_heartbeat_request(
            network@,
            my_public_sock_addr@,
            iv@,
        ).encodable(),
        request matches Some(bytes) ==> bytes@ == spec_heartbeat_request(
            network@,
            my_public_sock_addr@,
            iv@,
        ).bytes(),
{
    let fields = HeartbeatRequest {
        iv: *iv,
        net_id: encode_text(network.net_id.as_str()),
        sock_addr: copy_range(my_public_sock_addr, 0, my_public_sock_addr.len()),
    };
    assert(fields@.sock_addr =~= my_public_sock_addr@);
    fields.encode()
}

/// The request that asks a peer for its private address.
#[allow(non_snake_case)]
pub fn P2P_query() -> (request: Vec<u8>)
    ensures
        request@ == seq![P2PMethods::PEER_QUERY.spec_code()],
{
    bare(P2PMethods::PEER_QUERY.code())
}

/// Reads the private address from the response to a peer query.
#[allow(non_snake_case)]
pub fn P2P_query_response(response: &[u8], encrypted: bool, key: &[u8; 32]) -> (r: Result<
    Ipv4,
    Dropped,
>)
    ensures
        r == spec_announced_ip(encrypted, key@, response@),
{
    announced_ip(encrypted, key, response)
}

/// Builds the message that announces this client's private address to a
/// peer, encrypted under an IV of its own where the network is encrypted.
#[allow(non_snake_case)]
pub fn P2P_hello(private_ip: Ipv4, encrypted: bool, key: &[u8; 32]) -> (request: Vec<u8>)
    ensures
        exists|fresh: Seq<u8>|
            fresh.len() == 16 && request@ == #[trigger] spec_address_message(
                P2PMethods::PEER_HELLO.spec_code(),
                encrypted,
                key@,
                private_ip,
                fresh,
            ),
        request@[0] == P2PMethods::PEER_HELLO.spec_code(),
        spec_announced_ip(encrypted, key@, request@) == Ok::<Ipv4, Dropped>(private_ip),
{
    let fresh = random_block();
    let request = address_message(P2PMethods::PEER_HELLO, encrypted, key, private_ip, &fresh);
    assert(fresh@.len() == 16);
    request
}

} // verus!

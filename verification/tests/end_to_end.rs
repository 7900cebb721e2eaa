use pea_2_pea::client::bootstrap::{
    assign_private_address, create_network, punch_datagram, record_private_ip,
};
use pea_2_pea::client::net::{
    get_request, get_response, handle_incoming_connection, query_request, query_response,
    register_request, send_heartbeat, P2P_hello, P2P_query, P2P_query_response, PeerAction,
};
use pea_2_pea::client::tun::handle_ip_packet;
use pea_2_pea::client::types::{Network, Peer};
use pea_2_pea::server::net::handle_request_at;
use pea_2_pea::server::registry::Registry;
use pea_2_pea::shared::addr::{Ipv4, SockAddr};
use pea_2_pea::shared::crypto::random_block;
use pea_2_pea::shared::net::{send_and_recv_with_retry, RetryState, TransportAction, TransportEvent};
use pea_2_pea::client::bootstrap::seal_public_address;
use pea_2_pea::{ServerErrorResponses, STANDARD_RETRY_MAX};

/// Carries a request to the registrar and its answer back through the
/// transport's state machine, as a program with sockets would.
fn ask_registrar(
    registry: &mut Registry,
    from: SockAddr,
    request: &[u8],
    now: i64,
) -> Result<Vec<u8>, ServerErrorResponses> {
    let mut state = RetryState::new();
    let answer = handle_request_at(request, from, registry, now).expect("an answer");
    let event = TransportEvent::Datagram { from_destination: true, datagram: answer.clone() };
    match send_and_recv_with_retry(&mut state, request[0], STANDARD_RETRY_MAX, event) {
        TransportAction::Done(len, 0) => Ok(answer[..len].to_vec()),
        TransportAction::Failed(e) => Err(e),
        other => panic!("unexpected {:?}", other),
    }
}

fn join(
    registry: &mut Registry,
    me: SockAddr,
    id: &str,
    password: &Option<String>,
    now: i64,
) -> Network {
    let observed = query_response(&ask_registrar(registry, me, &query_request(), now).unwrap())
        .unwrap();
    assert_eq!(observed.as_bytes(), &me.to_text()[..]);
    let iv = random_block();
    match ask_registrar(registry, me, &get_request(id), now) {
        Ok(listing) => {
            let network = get_response(&listing, &id.to_string(), password).unwrap();
            let announced =
                seal_public_address(observed.as_bytes(), network.encrypted, &network.key, iv)
                    .unwrap();
            let request = send_heartbeat(&network, &announced.sock_addr, &announced.iv).unwrap();
            assert_eq!(ask_registrar(registry, me, &request, now), Ok(vec![3]));
            network
        }
        Err(ServerErrorResponses::ID_DOESNT_EXIST) => {
            let network = create_network(id.to_string(), password);
            let announced =
                seal_public_address(observed.as_bytes(), network.encrypted, &network.key, iv)
                    .unwrap();
            let request = register_request(&network, &announced.sock_addr, &announced.iv).unwrap();
            assert_eq!(ask_registrar(registry, me, &request, now), Ok(vec![1]));
            network
        }
        Err(e) => panic!("unexpected {:?}", e),
    }
}

fn two_clients_exchange_a_broadcast(password: Option<String>) {
    let mut registry = Registry::new();
    let first_addr = SockAddr::new(Ipv4::new(198, 51, 100, 1), 40001);
    let second_addr = SockAddr::new(Ipv4::new(203, 0, 113, 2), 40002);

    // The first client creates the network and takes the first address.
    let mut first = join(&mut registry, first_addr, "alpha", &password, 100);
    assert!(first.peers.is_empty());
    assert_eq!(assign_private_address(&mut first), Some(Ipv4::new(172, 22, 44, 1)));

    // The second client joins and learns of the first.
    let mut second = join(&mut registry, second_addr, "alpha", &password, 110);
    assert_eq!(second.peers, vec![Peer::new(first_addr, None)]);
    assert_eq!(second.encrypted, password.is_some());
    assert_eq!(second.key, first.key);
    assert_eq!(registry.at(0).unwrap().clients.len(), 2);

    // Punch, then query the peer for its private address.
    assert_eq!(
        handle_incoming_connection(&punch_datagram(), second_addr, &mut first),
        PeerAction::Nothing
    );
    let reply = match handle_incoming_connection(&P2P_query(), second_addr, &mut first) {
        PeerAction::Reply(reply) => reply,
        other => panic!("unexpected {:?}", other),
    };
    let peer_ip = P2P_query_response(&reply, second.encrypted, &second.key).unwrap();
    assert_eq!(peer_ip, Ipv4::new(172, 22, 44, 1));
    record_private_ip(&mut second, 0, peer_ip);

    // Take the lowest address that is free and announce it.
    assert_eq!(assign_private_address(&mut second), Some(Ipv4::new(172, 22, 44, 2)));
    assert_eq!(second.peers, vec![Peer::new(first_addr, Some(Ipv4::new(172, 22, 44, 1)))]);
    let hello = P2P_hello(second.private_ip, second.encrypted, &second.key);
    assert_eq!(
        handle_incoming_connection(&hello, second_addr, &mut first),
        PeerAction::Reply(vec![21])
    );
    assert_eq!(first.peers, vec![Peer::new(second_addr, Some(Ipv4::new(172, 22, 44, 2)))]);

    // A broadcast packet from the second client's interface arrives at the
    // first client's interface as it was.
    let mut packet = vec![0x45u8; 60];
    packet[16..20].copy_from_slice(&[172, 22, 44, 255]);
    let out = handle_ip_packet(&packet, &second).unwrap();
    assert_eq!(out.destinations, vec![first_addr]);
    assert_eq!(
        handle_incoming_connection(&out.frame, second_addr, &mut first),
        PeerAction::Deliver(packet.clone())
    );
    if password.is_none() {
        assert_eq!(&out.frame[17..], &packet[..]);
    }

    // And a packet for the second client finds its way back.
    packet[16..20].copy_from_slice(&[172, 22, 44, 2]);
    let back = handle_ip_packet(&packet, &first).unwrap();
    assert_eq!(back.destinations, vec![second_addr]);
    assert_eq!(
        handle_incoming_connection(&back.frame, first_addr, &mut second),
        PeerAction::Deliver(packet)
    );
}

#[test]
fn two_clients_join_alpha_without_password() {
    two_clients_exchange_a_broadcast(None);
}

#[test]
fn two_clients_join_alpha_with_password() {
    two_clients_exchange_a_broadcast(Some("correct horse".to_string()));
}

#[test]
fn wrong_password_sees_no_peers() {
    let mut registry = Registry::new();
    let first_addr = SockAddr::new(Ipv4::new(198, 51, 100, 1), 40001);
    let second_addr = SockAddr::new(Ipv4::new(203, 0, 113, 2), 40002);
    let _first = join(&mut registry, first_addr, "alpha", &Some("right".to_string()), 100);
    let second = join(&mut registry, second_addr, "alpha", &Some("wrong".to_string()), 110);
    assert!(second.encrypted);
    assert!(second.peers.is_empty());
}

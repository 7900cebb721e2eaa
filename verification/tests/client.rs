use pea_2_pea::client::bootstrap::{
    assign_private_address, create_network, found_network, lowest_free_octet, punch_datagram,
    punch_salvo, record_private_ip, retain_discovered, seal_public_address, BootstrapStep,
};
use pea_2_pea::client::net::{
    address_message, announced_ip, announced_sock_addr, answer_peer, get_request, get_response,
    handle_incoming_connection, open_field, query_request, query_response, register_request,
    remove_peer, seal_field, send_heartbeat, upsert_peer, Dropped, P2P_hello, P2P_query,
    P2P_query_response, PeerAction,
};
use pea_2_pea::client::tun::{
    destination, frame_packet, handle_ip_packet, route, route_packet, Outbound,
};
use pea_2_pea::client::types::{EncryptablePulicSockAddr, Network, Peer};
use pea_2_pea::shared::addr::{Ipv4, SockAddr};
use pea_2_pea::shared::crypto::{derive_key_from_password, encrypt};
use pea_2_pea::shared::wire::{
    p2p_message, GetResponse, HeartbeatRequest, Member, RegisterRequest,
};
use pea_2_pea::{IoError, IoErrorKind, P2PMethods, ServerErrorResponses};

fn public(last: u8, port: u16) -> SockAddr {
    SockAddr::new(Ipv4::new(198, 51, 100, last), port)
}

fn private(octet: u8) -> Ipv4 {
    Ipv4::new(172, 22, 44, octet)
}

fn plain_network(peers: Vec<Peer>) -> Network {
    let mut n = Network::new(false, [0; 32], "alpha".to_string(), [0; 16], peers);
    n.private_ip = private(9);
    n
}

fn secret_network(peers: Vec<Peer>) -> Network {
    let key = derive_key_from_password(b"hunter2", &[3; 16]);
    let mut n = Network::new(true, key, "alpha".to_string(), [3; 16], peers);
    n.private_ip = private(9);
    n
}

fn ip_packet(dst: Ipv4, len: usize) -> Vec<u8> {
    let mut p = vec![0x45u8; len];
    p[16] = dst.a;
    p[17] = dst.b;
    p[18] = dst.c;
    p[19] = dst.d;
    p
}

#[test]
fn peer_new_defaults_to_unspecified() {
    let p = Peer::new(public(1, 2), None);
    assert_eq!(p.sock_addr, public(1, 2));
    assert_eq!(p.private_ip, Ipv4::unspecified());
    assert!(!p.is_discovered());
    let q = Peer::new(public(1, 2), Some(private(4)));
    assert_eq!(q.private_ip, private(4));
    assert!(q.is_discovered());
}

#[test]
fn network_new_has_no_private_address() {
    let n = Network::new(true, [1; 32], "alpha".to_string(), [2; 16], vec![]);
    assert!(n.encrypted);
    assert_eq!(n.key, [1; 32]);
    assert_eq!(n.net_id, "alpha");
    assert_eq!(n.salt, [2; 16]);
    assert!(n.peers.is_empty());
    assert_eq!(n.private_ip, Ipv4::unspecified());
}

#[test]
fn encryptable_address_holds_its_fields() {
    let a = EncryptablePulicSockAddr::new([4; 16], b"x".to_vec());
    assert_eq!(a.iv, [4; 16]);
    assert_eq!(a.sock_addr, b"x".to_vec());
}

#[test]
fn fields_are_sealed_only_where_encrypted() {
    let key = [8u8; 32];
    let iv = [1u8; 16];
    assert_eq!(seal_field(false, &key, &iv, b"172.22.44.3"), b"172.22.44.3".to_vec());
    assert_eq!(open_field(false, &key, &iv, b"172.22.44.3"), Some(b"172.22.44.3".to_vec()));
    let sealed = seal_field(true, &key, &iv, b"172.22.44.3");
    assert_eq!(sealed, encrypt(&key, &iv, b"172.22.44.3").unwrap());
    assert_eq!(sealed.len(), 16);
    assert_eq!(open_field(true, &key, &iv, &sealed), Some(b"172.22.44.3".to_vec()));
    assert_eq!(open_field(true, &key, &iv, b"172.22.44.3"), None);
}

#[test]
fn bare_requests() {
    assert_eq!(query_request(), vec![0]);
    assert_eq!(P2P_query(), vec![20]);
    assert_eq!(punch_datagram(), vec![25]);
    assert_eq!(get_request("alpha"), b"\x02alpha".to_vec());
    assert_eq!(get_request(""), vec![2]);
}

#[test]
fn query_response_gives_the_observed_address() {
    assert_eq!(query_response(b"\x00203.0.113.7:40000"), Ok("203.0.113.7:40000".to_string()));
    assert_eq!(query_response(&[0]), Ok(String::new()));
    assert_eq!(
        query_response(&[0, 0xff]),
        Err(ServerErrorResponses::GENERAL_ERROR("Response is not valid UTF-8".to_string()))
    );
    assert_eq!(
        query_response(&[]),
        Err(ServerErrorResponses::IO(IoError::new(
            IoErrorKind::InvalidData,
            "Malformed message".to_string()
        )))
    );
}

#[test]
fn register_request_carries_the_network() {
    let n = secret_network(vec![]);
    let bytes = register_request(&n, b"cipher", &[7; 16]).unwrap();
    assert_eq!(
        RegisterRequest::decode(&bytes),
        Ok(RegisterRequest {
            encrypted: true,
            salt: [3; 16],
            iv: [7; 16],
            net_id: b"alpha".to_vec(),
            sock_addr: b"cipher".to_vec(),
        })
    );
    assert_eq!(bytes[0], 1);
    assert_eq!(register_request(&n, &[0; 256], &[7; 16]), None);
    let long = Network::new(false, [0; 32], "a".repeat(256), [0; 16], vec![]);
    assert_eq!(register_request(&long, b"x", &[7; 16]), None);
}

#[test]
fn heartbeat_request_carries_the_network() {
    let n = plain_network(vec![]);
    let bytes = send_heartbeat(&n, b"1.2.3.4:5", &[7; 16]).unwrap();
    assert_eq!(
        HeartbeatRequest::decode(&bytes),
        Ok(HeartbeatRequest {
            iv: [7; 16],
            net_id: b"alpha".to_vec(),
            sock_addr: b"1.2.3.4:5".to_vec(),
        })
    );
    assert_eq!(bytes[0], 3);
    assert_eq!(send_heartbeat(&n, &[0; 256], &[7; 16]), None);
}

#[test]
fn get_response_of_plain_network() {
    let bytes = GetResponse {
        encrypted: false,
        salt: [0; 16],
        members: vec![
            Member { iv: [0; 16], sock_addr: b"198.51.100.1:4000".to_vec() },
            Member { iv: [0; 16], sock_addr: b"not an address".to_vec() },
            Member { iv: [0; 16], sock_addr: vec![0xff, 0xfe] },
            Member { iv: [0; 16], sock_addr: b"198.51.100.2:4001".to_vec() },
        ],
    }
    .encode()
    .unwrap();
    let n = get_response(&bytes, &"alpha".to_string(), &None).unwrap();
    assert_eq!(
        n,
        Network::new(
            false,
            [0; 32],
            "alpha".to_string(),
            [0; 16],
            vec![Peer::new(public(1, 4000), None), Peer::new(public(2, 4001), None)],
        )
    );
    // A password for a network that is not encrypted is not used.
    let m = get_response(&bytes, &"alpha".to_string(), &Some("pw".to_string())).unwrap();
    assert_eq!(m, n);
}

#[test]
fn get_response_of_encrypted_network() {
    let salt = [3u8; 16];
    let key = derive_key_from_password(b"hunter2", &salt);
    let wrong = derive_key_from_password(b"hunter3", &salt);
    let bytes = GetResponse {
        encrypted: true,
        salt,
        members: vec![
            Member { iv: [1; 16], sock_addr: encrypt(&key, &[1; 16], b"198.51.100.1:4000").unwrap() },
            Member { iv: [2; 16], sock_addr: encrypt(&wrong, &[2; 16], b"198.51.100.9:1").unwrap() },
            Member { iv: [4; 16], sock_addr: b"198.51.100.8:1".to_vec() },
            Member { iv: [5; 16], sock_addr: encrypt(&key, &[5; 16], b"198.51.100.2:4001").unwrap() },
        ],
    }
    .encode()
    .unwrap();
    let n = get_response(&bytes, &"alpha".to_string(), &Some("hunter2".to_string())).unwrap();
    assert!(n.encrypted);
    assert_eq!(n.key, key);
    assert_eq!(n.salt, salt);
    assert_eq!(n.net_id, "alpha");
    assert_eq!(n.private_ip, Ipv4::unspecified());
    assert_eq!(n.peers, vec![Peer::new(public(1, 4000), None), Peer::new(public(2, 4001), None)]);
    assert_eq!(
        get_response(&bytes, &"alpha".to_string(), &None),
        Err(ServerErrorResponses::GENERAL_ERROR(
            "Network is encrypted but no password was provided".to_string()
        ))
    );
}

#[test]
fn get_response_malformed() {
    let bytes = GetResponse {
        encrypted: false,
        salt: [0; 16],
        members: vec![Member { iv: [0; 16], sock_addr: b"198.51.100.1:4000".to_vec() }],
    }
    .encode()
    .unwrap();
    let malformed = Err(ServerErrorResponses::IO(IoError::new(
        IoErrorKind::InvalidData,
        "Malformed message".to_string(),
    )));
    for cut in 0..bytes.len() {
        assert_eq!(get_response(&bytes[..cut], &"alpha".to_string(), &None), malformed);
    }
}

#[test]
fn address_message_plain() {
    let m = address_message(P2PMethods::PEER_HELLO, false, &[0; 32], private(3), &[9; 16]);
    let mut expected = vec![21u8];
    expected.extend_from_slice(&[0; 16]);
    expected.extend_from_slice(b"172.22.44.3");
    assert_eq!(m, expected);
    assert_eq!(announced_ip(false, &[0; 32], &m), Ok(private(3)));
    assert_eq!(P2P_query_response(&m, false, &[0; 32]), Ok(private(3)));
}

#[test]
fn address_message_encrypted() {
    let key = [5u8; 32];
    let m = address_message(P2PMethods::PEER_QUERY, true, &key, private(200), &[9; 16]);
    assert_eq!(m[0], 20);
    assert_eq!(&m[1..17], &[9; 16]);
    assert_eq!(&m[17..], &encrypt(&key, &[9; 16], b"172.22.44.200").unwrap()[..]);
    assert_eq!(announced_ip(true, &key, &m), Ok(private(200)));
    assert_eq!(announced_ip(true, &[6; 32], &m), Err(Dropped::Undecryptable));
    assert_eq!(announced_ip(false, &key, &m), Err(Dropped::NotAnAddress));
}

#[test]
fn announced_address_failures() {
    assert_eq!(announced_ip(false, &[0; 32], &[21; 16]), Err(Dropped::Malformed));
    assert_eq!(announced_ip(false, &[0; 32], &[21; 17]), Err(Dropped::NotAnAddress));
    assert_eq!(announced_sock_addr(false, &[0; 32], &[24; 3]), Err(Dropped::Malformed));
    let m = p2p_message(24, &[0; 16], b"198.51.100.1:4000");
    assert_eq!(announced_sock_addr(false, &[0; 32], &m), Ok(public(1, 4000)));
    let m = p2p_message(24, &[0; 16], b"198.51.100.1");
    assert_eq!(announced_sock_addr(false, &[0; 32], &m), Err(Dropped::NotAnAddress));
}

#[test]
fn hello_announces_the_address() {
    let key = [5u8; 32];
    let m = P2P_hello(private(3), true, &key);
    assert_eq!(m[0], 21);
    assert_eq!(announced_ip(true, &key, &m), Ok(private(3)));
    let again = P2P_hello(private(3), true, &key);
    assert_ne!(&m[1..17], &again[1..17]);
    let plain = P2P_hello(private(3), false, &key);
    assert_eq!(&plain[1..17], &[0; 16]);
    assert_eq!(&plain[17..], b"172.22.44.3");
}

#[test]
fn upsert_adds_or_readdresses() {
    let mut peers = vec![Peer::new(public(1, 1), None), Peer::new(public(2, 2), Some(private(2)))];
    upsert_peer(&mut peers, public(3, 3), private(3));
    assert_eq!(peers.len(), 3);
    assert_eq!(peers[2], Peer::new(public(3, 3), Some(private(3))));
    upsert_peer(&mut peers, public(1, 1), private(1));
    assert_eq!(
        peers,
        vec![
            Peer::new(public(1, 1), Some(private(1))),
            Peer::new(public(2, 2), Some(private(2))),
            Peer::new(public(3, 3), Some(private(3))),
        ]
    );
    upsert_peer(&mut peers, public(2, 2), private(20));
    assert_eq!(peers.len(), 3);
    assert_eq!(peers[1], Peer::new(public(2, 2), Some(private(20))));
}

#[test]
fn remove_needs_address_and_source() {
    let start = vec![
        Peer::new(public(1, 1), Some(private(1))),
        Peer::new(public(2, 2), Some(private(2))),
    ];
    let mut peers = start.clone();
    remove_peer(&mut peers, public(1, 1), private(2));
    assert_eq!(peers, start);
    remove_peer(&mut peers, public(9, 9), private(1));
    assert_eq!(peers, start);
    remove_peer(&mut peers, public(1, 1), private(1));
    assert_eq!(peers, vec![Peer::new(public(2, 2), Some(private(2)))]);
}

#[test]
fn dispatch_packet() {
    let mut n = plain_network(vec![]);
    let frame = p2p_message(23, &[0; 16], b"raw ip packet");
    assert_eq!(
        answer_peer(&frame, public(1, 1), &mut n, &[0; 16]),
        PeerAction::Deliver(b"raw ip packet".to_vec())
    );
    assert_eq!(
        answer_peer(&frame[..16], public(1, 1), &mut n, &[0; 16]),
        PeerAction::Drop(Dropped::Malformed)
    );
    assert_eq!(
        answer_peer(&frame[..17], public(1, 1), &mut n, &[0; 16]),
        PeerAction::Deliver(vec![])
    );
    let mut s = secret_network(vec![]);
    let sealed = encrypt(&s.key, &[4; 16], b"raw ip packet").unwrap();
    let frame = p2p_message(23, &[4; 16], &sealed);
    assert_eq!(
        answer_peer(&frame, public(1, 1), &mut s, &[0; 16]),
        PeerAction::Deliver(b"raw ip packet".to_vec())
    );
    let mut corrupt = frame.clone();
    corrupt.pop();
    assert_eq!(
        answer_peer(&corrupt, public(1, 1), &mut s, &[0; 16]),
        PeerAction::Drop(Dropped::Undecryptable)
    );
}

#[test]
fn dispatch_query() {
    let mut n = plain_network(vec![]);
    let mut expected = vec![20u8];
    expected.extend_from_slice(&[0; 16]);
    expected.extend_from_slice(b"172.22.44.9");
    assert_eq!(answer_peer(&[20], public(1, 1), &mut n, &[6; 16]), PeerAction::Reply(expected));
    let mut s = secret_network(vec![]);
    match answer_peer(&[20], public(1, 1), &mut s, &[6; 16]) {
        PeerAction::Reply(reply) => {
            assert_eq!(reply[0], 20);
            assert_eq!(&reply[1..17], &[6; 16]);
            assert_eq!(P2P_query_response(&reply, true, &s.key), Ok(private(9)));
        }
        other => panic!("unexpected {:?}", other),
    }
}

#[test]
fn dispatch_hello_and_goodbye() {
    let mut n = plain_network(vec![Peer::new(public(1, 1), None)]);
    let hello = address_message(P2PMethods::PEER_HELLO, false, &[0; 32], private(4), &[0; 16]);
    assert_eq!(answer_peer(&hello, public(1, 1), &mut n, &[0; 16]), PeerAction::Reply(vec![21]));
    assert_eq!(n.peers, vec![Peer::new(public(1, 1), Some(private(4)))]);
    assert_eq!(answer_peer(&hello, public(2, 2), &mut n, &[0; 16]), PeerAction::Reply(vec![21]));
    assert_eq!(
        n.peers,
        vec![Peer::new(public(1, 1), Some(private(4))), Peer::new(public(2, 2), Some(private(4)))]
    );
    let bye = address_message(P2PMethods::PEER_GOODBYE, false, &[0; 32], private(4), &[0; 16]);
    assert_eq!(answer_peer(&bye, public(3, 3), &mut n, &[0; 16]), PeerAction::Reply(vec![22]));
    assert_eq!(n.peers.len(), 2);
    assert_eq!(answer_peer(&bye, public(1, 1), &mut n, &[0; 16]), PeerAction::Reply(vec![22]));
    assert_eq!(n.peers, vec![Peer::new(public(2, 2), Some(private(4)))]);
}

#[test]
fn dispatch_bad_hello_and_goodbye_change_nothing() {
    let start = vec![Peer::new(public(1, 1), Some(private(4)))];
    let mut n = secret_network(start.clone());
    for method in [21u8, 22u8] {
        assert_eq!(
            answer_peer(&[method; 5], public(1, 1), &mut n, &[0; 16]),
            PeerAction::Drop(Dropped::Malformed)
        );
        let garbage = p2p_message(method, &[0; 16], &[1; 16]);
        assert_eq!(
            answer_peer(&garbage, public(1, 1), &mut n, &[0; 16]),
            PeerAction::Drop(Dropped::Undecryptable)
        );
        let not_ip = p2p_message(method, &[0; 16], &encrypt(&n.key, &[0; 16], b"hello").unwrap());
        assert_eq!(
            answer_peer(&not_ip, public(1, 1), &mut n, &[0; 16]),
            PeerAction::Drop(Dropped::NotAnAddress)
        );
    }
    assert_eq!(n.peers, start);
}

#[test]
fn dispatch_notify_no_op_and_unknown() {
    let mut n = plain_network(vec![]);
    let notify = p2p_message(24, &[0; 16], b"198.51.100.1:4000");
    assert_eq!(
        answer_peer(&notify, public(7, 7), &mut n, &[0; 16]),
        PeerAction::Punch(public(1, 4000))
    );
    assert_eq!(answer_peer(&[25], public(7, 7), &mut n, &[0; 16]), PeerAction::Nothing);
    assert_eq!(
        answer_peer(&[26], public(7, 7), &mut n, &[0; 16]),
        PeerAction::Drop(Dropped::UnknownMethod)
    );
    assert_eq!(
        answer_peer(&[0], public(7, 7), &mut n, &[0; 16]),
        PeerAction::Drop(Dropped::UnknownMethod)
    );
    assert_eq!(
        answer_peer(&[], public(7, 7), &mut n, &[0; 16]),
        PeerAction::Drop(Dropped::Malformed)
    );
    assert!(n.peers.is_empty());
}

#[test]
fn handle_incoming_connection_answers_queries() {
    let mut s = secret_network(vec![]);
    match handle_incoming_connection(&[20], public(1, 1), &mut s) {
        PeerAction::Reply(reply) => {
            assert_eq!(P2P_query_response(&reply, true, &s.key), Ok(private(9)))
        }
        other => panic!("unexpected {:?}", other),
    }
    assert_eq!(handle_incoming_connection(&[25], public(1, 1), &mut s), PeerAction::Nothing);
}

#[test]
fn lowest_unclaimed_octet_is_assigned() {
    let peers = vec![
        Peer::new(public(1, 1), Some(private(1))),
        Peer::new(public(2, 2), Some(private(2))),
        Peer::new(public(4, 4), Some(private(4))),
    ];
    assert_eq!(lowest_free_octet(&peers), Some(3));
    let mut n = Network::new(false, [0; 32], "alpha".to_string(), [0; 16], peers.clone());
    assert_eq!(assign_private_address(&mut n), Some(private(3)));
    assert_eq!(n.private_ip, private(3));
    assert_eq!(n.peers, peers);
}

#[test]
fn first_client_takes_octet_one() {
    let mut n = Network::new(false, [0; 32], "alpha".to_string(), [0; 16], vec![]);
    assert_eq!(assign_private_address(&mut n), Some(private(1)));
}

#[test]
fn undiscovered_peers_claim_nothing_and_are_dropped() {
    let mut n = Network::new(
        false,
        [0; 32],
        "alpha".to_string(),
        [0; 16],
        vec![
            Peer::new(public(1, 1), None),
            Peer::new(public(2, 2), Some(private(1))),
            Peer::new(public(3, 3), None),
        ],
    );
    assert_eq!(assign_private_address(&mut n), Some(private(2)));
    assert_eq!(n.peers, vec![Peer::new(public(2, 2), Some(private(1)))]);
}

#[test]
fn broadcast_and_network_octets_are_never_assigned() {
    let mut peers: Vec<Peer> =
        (1..=253u8).map(|o| Peer::new(public(o, 1), Some(private(o)))).collect();
    peers.push(Peer::new(public(0, 1), Some(private(255))));
    assert_eq!(lowest_free_octet(&peers), Some(254));
    peers.push(Peer::new(public(254, 1), Some(private(254))));
    assert_eq!(lowest_free_octet(&peers), None);
    let mut n = Network::new(false, [0; 32], "alpha".to_string(), [0; 16], peers.clone());
    assert_eq!(assign_private_address(&mut n), None);
    assert_eq!(n.peers, peers);
    assert_eq!(n.private_ip, Ipv4::unspecified());
}

#[test]
fn record_and_retain() {
    let mut n = plain_network(vec![Peer::new(public(1, 1), None), Peer::new(public(2, 2), None)]);
    record_private_ip(&mut n, 1, private(7));
    record_private_ip(&mut n, 2, private(8));
    assert_eq!(
        n.peers,
        vec![Peer::new(public(1, 1), None), Peer::new(public(2, 2), Some(private(7)))]
    );
    retain_discovered(&mut n.peers);
    assert_eq!(n.peers, vec![Peer::new(public(2, 2), Some(private(7)))]);
}

#[test]
fn bootstrap_steps_in_order() {
    let mut step = BootstrapStep::first();
    let mut seen = vec![step];
    while step != BootstrapStep::SteadyState {
        step = step.next(true);
        seen.push(step);
    }
    assert_eq!(
        seen,
        vec![
            BootstrapStep::QueryPublicAddress,
            BootstrapStep::JoinOrCreateNetwork,
            BootstrapStep::Heartbeat,
            BootstrapStep::PunchPeers,
            BootstrapStep::AssignPrivateAddress,
            BootstrapStep::HelloPeers,
            BootstrapStep::SteadyState,
        ]
    );
    assert_eq!(BootstrapStep::JoinOrCreateNetwork.next(false), BootstrapStep::PunchPeers);
    assert_eq!(BootstrapStep::SteadyState.next(false), BootstrapStep::SteadyState);
}

#[test]
fn public_address_is_sealed() {
    let key = [9u8; 32];
    let plain = seal_public_address(b"198.51.100.1:4000", false, &key, [1; 16]).unwrap();
    assert_eq!(plain, EncryptablePulicSockAddr::new([1; 16], b"198.51.100.1:4000".to_vec()));
    let sealed = seal_public_address(b"198.51.100.1:4000", true, &key, [1; 16]).unwrap();
    assert_eq!(sealed.iv, [1; 16]);
    assert_eq!(sealed.sock_addr, encrypt(&key, &[1; 16], b"198.51.100.1:4000").unwrap());
    assert_eq!(seal_public_address(&[b'1'; 256], false, &key, [1; 16]), None);
}

#[test]
fn destination_is_read_from_the_header() {
    assert_eq!(destination(&ip_packet(private(7), 20)), Some(private(7)));
    assert_eq!(destination(&ip_packet(private(7), 64)), Some(private(7)));
    assert_eq!(destination(&[0; 19]), None);
    assert_eq!(destination(&[]), None);
}

#[test]
fn route_unicast_and_broadcast() {
    let peers = vec![
        Peer::new(public(1, 1), Some(private(1))),
        Peer::new(public(2, 2), None),
        Peer::new(public(3, 3), Some(private(3))),
        Peer::new(public(4, 4), Some(private(3))),
    ];
    assert_eq!(route(&peers, private(1)), vec![public(1, 1)]);
    assert_eq!(route(&peers, private(3)), vec![public(3, 3)]);
    assert_eq!(route(&peers, private(2)), Vec::<SockAddr>::new());
    assert_eq!(route(&peers, Ipv4::unspecified()), Vec::<SockAddr>::new());
    assert_eq!(route(&peers, private(255)), vec![public(1, 1), public(3, 3), public(4, 4)]);
    assert_eq!(route(&peers, Ipv4::new(10, 0, 0, 255)), vec![public(1, 1), public(3, 3), public(4, 4)]);
    assert_eq!(route(&vec![], private(255)), Vec::<SockAddr>::new());
}

#[test]
fn packets_are_framed_and_routed() {
    let n = plain_network(vec![Peer::new(public(1, 1), Some(private(1)))]);
    let packet = ip_packet(private(1), 40);
    let mut frame = vec![23u8];
    frame.extend_from_slice(&[0; 16]);
    frame.extend_from_slice(&packet);
    assert_eq!(
        route_packet(&packet, &n, &[5; 16]),
        Some(Outbound { frame: frame.clone(), destinations: vec![public(1, 1)] })
    );
    assert_eq!(frame_packet(false, &[0; 32], &packet, &[5; 16]), frame);
    assert_eq!(route_packet(&ip_packet(private(2), 40), &n, &[5; 16]), None);
    assert_eq!(route_packet(&[0; 10], &n, &[5; 16]), None);
    assert_eq!(route_packet(&vec![255; 65536], &n, &[5; 16]), None);
    assert_eq!(handle_ip_packet(&packet, &n), Some(Outbound { frame, destinations: vec![public(1, 1)] }));
}

#[test]
fn encrypted_packets_reach_the_peer_intact() {
    let sender = secret_network(vec![Peer::new(public(1, 1), Some(private(1)))]);
    let mut receiver = secret_network(vec![]);
    let packet = ip_packet(private(1), 100);
    let out = handle_ip_packet(&packet, &sender).unwrap();
    assert_eq!(out.destinations, vec![public(1, 1)]);
    assert_eq!(out.frame[0], 23);
    assert_eq!(out.frame.len(), 17 + 112);
    assert_ne!(&out.frame[17..17 + 100], &packet[..]);
    assert_eq!(
        handle_incoming_connection(&out.frame, public(9, 9), &mut receiver),
        PeerAction::Deliver(packet.clone())
    );
    let again = handle_ip_packet(&packet, &sender).unwrap();
    assert_ne!(&again.frame[1..17], &out.frame[1..17]);
    let framed = route_packet(&packet, &sender, &[5; 16]).unwrap();
    assert_eq!(&framed.frame[1..17], &[5; 16]);
    assert_eq!(&framed.frame[17..], &encrypt(&sender.key, &[5; 16], &packet).unwrap()[..]);
}

#[test]
fn salvo_is_five_no_ops() {
    assert_eq!(punch_salvo(), vec![vec![25u8]; 5]);
}

#[test]
fn founded_network_without_password_is_in_clear() {
    let n = found_network("alpha".to_string(), &None, [7; 16]);
    assert_eq!(n, Network::new(false, [0; 32], "alpha".to_string(), [0; 16], vec![]));
    assert_eq!(create_network("alpha".to_string(), &None), n);
}

#[test]
fn founded_network_with_password_is_encrypted() {
    let n = found_network("alpha".to_string(), &Some("hunter2".to_string()), [7; 16]);
    let key = derive_key_from_password(b"hunter2", &[7; 16]);
    assert_eq!(n, Network::new(true, key, "alpha".to_string(), [7; 16], vec![]));
    let a = create_network("alpha".to_string(), &Some("hunter2".to_string()));
    let b = create_network("alpha".to_string(), &Some("hunter2".to_string()));
    assert!(a.encrypted && b.encrypted);
    assert_ne!(a.salt, b.salt);
    assert_eq!(a.key, derive_key_from_password(b"hunter2", &a.salt));
}

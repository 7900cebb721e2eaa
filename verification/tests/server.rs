use pea_2_pea::server::net::{acknowledge, handle_request, handle_request_at};
use pea_2_pea::server::registry::Registry;
use pea_2_pea::server::types::{Client, Registration};
use pea_2_pea::shared::addr::{Ipv4, SockAddr};
use pea_2_pea::shared::wire::{GetResponse, HeartbeatRequest, Member, RegisterRequest};
use pea_2_pea::{ServerErrorResponses, ServerMethods};

fn src(port: u16) -> SockAddr {
    SockAddr::new(Ipv4::new(203, 0, 113, 7), port)
}

fn general_error(text: &str) -> Option<Vec<u8>> {
    let mut v = vec![255u8];
    v.extend_from_slice(text.as_bytes());
    Some(v)
}

fn register_bytes(id: &[u8], addr: &[u8], encrypted: bool) -> Vec<u8> {
    RegisterRequest {
        encrypted,
        salt: [5; 16],
        iv: [6; 16],
        net_id: id.to_vec(),
        sock_addr: addr.to_vec(),
    }
    .encode()
    .unwrap()
}

fn heartbeat_bytes(id: &[u8], addr: &[u8], iv: [u8; 16]) -> Vec<u8> {
    HeartbeatRequest { iv, net_id: id.to_vec(), sock_addr: addr.to_vec() }.encode().unwrap()
}

#[test]
fn query_reflects_the_source() {
    let mut registry = Registry::new();
    let response = handle_request_at(&[0], src(40000), &mut registry, 1);
    let mut expected = vec![0u8];
    expected.extend_from_slice(b"203.0.113.7:40000");
    assert_eq!(response, Some(expected));
    assert_eq!(registry.len(), 0);
}

#[test]
fn empty_and_unknown_requests_are_dropped() {
    let mut registry = Registry::new();
    assert_eq!(handle_request_at(&[], src(1), &mut registry, 1), None);
    assert_eq!(handle_request_at(&[4], src(1), &mut registry, 1), None);
    assert_eq!(handle_request_at(&[20, 1, 2], src(1), &mut registry, 1), None);
    assert_eq!(handle_request_at(&[255], src(1), &mut registry, 1), None);
    assert_eq!(registry.len(), 0);
}

#[test]
fn register_stores_the_payload_after_the_id() {
    let mut registry = Registry::new();
    let request = register_bytes(b"alpha", b"1.2.3.4:5", true);
    assert_eq!(handle_request_at(&request, src(9), &mut registry, 1234), Some(vec![1]));
    assert_eq!(
        registry.at(0),
        Some(Registration {
            net_id: "alpha".to_string(),
            clients: vec![Client::new(b"1.2.3.4:5".to_vec(), 1234, [6; 16], src(9))],
            last_heart_beat: 1234,
            encrypted: true,
            salt: [5; 16],
            invalid: false,
        })
    );
}

#[test]
fn register_unencrypted_stores_zero_salt_and_iv() {
    let mut registry = Registry::new();
    let request = register_bytes(b"alpha", b"1.2.3.4:5", false);
    assert_eq!(handle_request_at(&request, src(9), &mut registry, 1234), Some(vec![1]));
    let r = registry.at(0).unwrap();
    assert!(!r.encrypted);
    assert_eq!(r.salt, [0; 16]);
    assert_eq!(r.clients[0].iv, [0; 16]);
}

#[test]
fn register_twice_answers_id_exists() {
    let mut registry = Registry::new();
    let request = register_bytes(b"alpha", b"1.2.3.4:5", false);
    assert_eq!(handle_request_at(&request, src(9), &mut registry, 1), Some(vec![1]));
    assert_eq!(handle_request_at(&request, src(10), &mut registry, 2), Some(vec![254]));
    assert_eq!(registry.len(), 1);
    assert_eq!(registry.at(0).unwrap().last_heart_beat, 1);
}

#[test]
fn register_malformed_is_dropped_without_answer() {
    let mut registry = Registry::new();
    let request = register_bytes(b"alpha", b"1.2.3.4:5", false);
    for cut in 1..request.len() {
        assert_eq!(handle_request_at(&request[..cut], src(9), &mut registry, 1), None);
    }
    assert_eq!(handle_request_at(&register_bytes(b"", b"a", false), src(9), &mut registry, 1), None);
    assert_eq!(handle_request_at(&register_bytes(b"a", b"", false), src(9), &mut registry, 1), None);
    assert_eq!(registry.len(), 0);
}

#[test]
fn register_with_id_that_is_not_text_answers_general_error() {
    let mut registry = Registry::new();
    let request = register_bytes(&[0xff, 0xfe], b"a", false);
    assert_eq!(
        handle_request_at(&request, src(9), &mut registry, 1),
        general_error("Network ID is not valid UTF-8")
    );
    assert_eq!(registry.len(), 0);
}

#[test]
fn get_answers_with_the_listing() {
    let mut registry = Registry::new();
    handle_request_at(&register_bytes(b"alpha", b"1.2.3.4:5", true), src(9), &mut registry, 1);
    let response = handle_request_at(b"\x02alpha", src(10), &mut registry, 2).unwrap();
    assert_eq!(
        GetResponse::decode(&response),
        Ok(GetResponse {
            encrypted: true,
            salt: [5; 16],
            members: vec![Member { iv: [6; 16], sock_addr: b"1.2.3.4:5".to_vec() }],
        })
    );
}

#[test]
fn get_of_unknown_id_answers_id_doesnt_exist() {
    let mut registry = Registry::new();
    assert_eq!(handle_request_at(b"\x02alpha", src(10), &mut registry, 2), Some(vec![253]));
    handle_request_at(&register_bytes(b"alpha", b"1.2.3.4:5", true), src(9), &mut registry, 1);
    assert_eq!(handle_request_at(b"\x02alph", src(10), &mut registry, 2), Some(vec![253]));
    assert_eq!(handle_request_at(b"\x02alphaa", src(10), &mut registry, 2), Some(vec![253]));
    assert_eq!(handle_request_at(b"\x02", src(10), &mut registry, 2), Some(vec![253]));
}

#[test]
fn get_with_bad_id_answers_general_error() {
    let mut registry = Registry::new();
    let mut long = vec![2u8];
    long.extend_from_slice(&[b'a'; 256]);
    assert_eq!(
        handle_request_at(&long, src(10), &mut registry, 2),
        general_error("Network ID is too long")
    );
    long.pop();
    assert_eq!(handle_request_at(&long, src(10), &mut registry, 2), Some(vec![253]));
    assert_eq!(
        handle_request_at(&[2, 0xff], src(10), &mut registry, 2),
        general_error("Network ID is not valid UTF-8")
    );
}

#[test]
fn heartbeat_adds_and_refreshes() {
    let mut registry = Registry::new();
    handle_request_at(&register_bytes(b"alpha", b"1.2.3.4:5", false), src(9), &mut registry, 1);
    let hb = heartbeat_bytes(b"alpha", b"5.6.7.8:9", [4; 16]);
    assert_eq!(handle_request_at(&hb, src(20), &mut registry, 50), Some(vec![3]));
    assert_eq!(registry.at(0).unwrap().clients.len(), 2);
    assert_eq!(
        registry.at(0).unwrap().clients[1],
        Client::new(b"5.6.7.8:9".to_vec(), 50, [4; 16], src(20))
    );
    assert_eq!(handle_request_at(&hb, src(21), &mut registry, 60), Some(vec![3]));
    let r = registry.at(0).unwrap();
    assert_eq!(r.clients.len(), 2);
    assert_eq!(r.clients[1], Client::new(b"5.6.7.8:9".to_vec(), 60, [4; 16], src(20)));
    assert_eq!(r.last_heart_beat, 60);
}

#[test]
fn heartbeat_failures() {
    let mut registry = Registry::new();
    let hb = heartbeat_bytes(b"alpha", b"5.6.7.8:9", [4; 16]);
    assert_eq!(handle_request_at(&hb, src(20), &mut registry, 50), Some(vec![253]));
    assert_eq!(
        handle_request_at(&heartbeat_bytes(b"", b"a", [0; 16]), src(20), &mut registry, 50),
        general_error("ID too short!")
    );
    assert_eq!(
        handle_request_at(&heartbeat_bytes(b"a", b"", [0; 16]), src(20), &mut registry, 50),
        general_error("SockAddr too short!")
    );
    assert_eq!(
        handle_request_at(&heartbeat_bytes(&[0xc0], b"a", [0; 16]), src(20), &mut registry, 50),
        general_error("Network ID is not valid UTF-8")
    );
    for cut in 1..hb.len() {
        assert_eq!(handle_request_at(&hb[..cut], src(20), &mut registry, 50), None);
    }
    assert_eq!(registry.len(), 0);
}

#[test]
fn acknowledge_echoes_or_reports() {
    assert_eq!(acknowledge(ServerMethods::REGISTER, &Ok(())), vec![1]);
    assert_eq!(acknowledge(ServerMethods::HEARTBEAT, &Ok(())), vec![3]);
    assert_eq!(acknowledge(ServerMethods::REGISTER, &Err(ServerErrorResponses::ID_EXISTS)), vec![254]);
    assert_eq!(
        acknowledge(ServerMethods::HEARTBEAT, &Err(ServerErrorResponses::ID_DOESNT_EXIST)),
        vec![253]
    );
}

#[test]
fn handle_request_stamps_with_the_clock() {
    let mut registry = Registry::new();
    let before = pea_2_pea::server::utils::unix_now();
    let response =
        handle_request(&register_bytes(b"alpha", b"1.2.3.4:5", false), src(9), &mut registry);
    let after = pea_2_pea::server::utils::unix_now();
    assert_eq!(response, Some(vec![1]));
    let stamped = registry.at(0).unwrap().last_heart_beat;
    assert!(before <= stamped && stamped <= after);
}

use pea_2_pea::shared::text::{decode_text, encode_text};
use pea_2_pea::shared::wire::{
    bare, body, copy_block, copy_range, get_response_head, p2p_fields, p2p_message,
    push_member_block, tagged, zero_block, zero_key, GetResponse, HeartbeatRequest,
    MalformedMessage, Member, RegisterRequest,
};

fn block(first: u8) -> [u8; 16] {
    let mut b = [0u8; 16];
    for i in 0..16 {
        b[i] = first + i as u8;
    }
    b
}

#[test]
fn copies_are_exact() {
    let bytes: Vec<u8> = (0..40u8).collect();
    assert_eq!(copy_range(&bytes, 3, 7), vec![3, 4, 5, 6]);
    assert_eq!(copy_range(&bytes, 5, 5), Vec::<u8>::new());
    assert_eq!(copy_block(&bytes, 4), block(4));
    assert_eq!(zero_block(), [0u8; 16]);
    assert_eq!(zero_key(), [0u8; 32]);
}

#[test]
fn text_round_trip_and_rejection() {
    assert_eq!(encode_text("alpha"), b"alpha".to_vec());
    assert_eq!(encode_text("žluťoučký"), "žluťoučký".as_bytes().to_vec());
    assert_eq!(decode_text(b"alpha"), Some("alpha".to_string()));
    assert_eq!(decode_text("žluťoučký".as_bytes()), Some("žluťoučký".to_string()));
    assert_eq!(decode_text(&[0xff, 0xfe]), None);
    assert_eq!(decode_text(&[0xc3]), None);
    assert_eq!(decode_text(&[]), Some(String::new()));
}

#[test]
fn p2p_message_layout() {
    let iv = block(100);
    let m = p2p_message(23, &iv, &[9, 8, 7]);
    assert_eq!(m.len(), 20);
    assert_eq!(m[0], 23);
    assert_eq!(&m[1..17], &iv[..]);
    assert_eq!(&m[17..], &[9, 8, 7]);
}

#[test]
fn p2p_fields_split_the_message() {
    let iv = block(100);
    let m = p2p_message(21, &iv, b"172.22.44.3");
    assert_eq!(p2p_fields(&m), Some((iv, b"172.22.44.3".to_vec())));
    assert_eq!(p2p_fields(&m[..17]), Some((iv, vec![])));
    assert_eq!(p2p_fields(&m[..16]), None);
    assert_eq!(p2p_fields(&[]), None);
}

#[test]
fn bare_is_one_byte() {
    assert_eq!(bare(25), vec![25]);
    assert_eq!(bare(0), vec![0]);
}

#[test]
fn get_response_is_built_from_head_and_blocks() {
    let mut out = get_response_head(true, 1, &block(1));
    assert_eq!(out.len(), 19);
    assert_eq!(&out[..3], &[2, 1, 1]);
    push_member_block(&mut out, &block(20), b"abc");
    assert_eq!(out.len(), 19 + 1 + 16 + 3);
    assert_eq!(out[19], 3);
    assert_eq!(
        GetResponse::decode(&out),
        Ok(GetResponse {
            encrypted: true,
            salt: block(1),
            members: vec![Member { iv: block(20), sock_addr: b"abc".to_vec() }],
        })
    );
}

#[test]
fn tagged_layout() {
    assert_eq!(tagged(2, b"alpha"), vec![2, b'a', b'l', b'p', b'h', b'a']);
    assert_eq!(body(&[2, b'a', b'l']), b"al".to_vec());
    assert_eq!(body(&[2]), Vec::<u8>::new());
}

#[test]
fn register_request_layout() {
    let request = RegisterRequest {
        encrypted: true,
        salt: block(1),
        iv: block(50),
        net_id: b"alpha".to_vec(),
        sock_addr: b"1.2.3.4:5".to_vec(),
    };
    let bytes = request.encode().unwrap();
    assert_eq!(bytes.len(), 36 + 5 + 9);
    assert_eq!(bytes[0], 1);
    assert_eq!(bytes[1], 1);
    assert_eq!(bytes[2], 5);
    assert_eq!(bytes[3], 9);
    assert_eq!(&bytes[4..20], &block(1)[..]);
    assert_eq!(&bytes[20..36], &block(50)[..]);
    assert_eq!(&bytes[36..41], b"alpha");
    assert_eq!(&bytes[41..], b"1.2.3.4:5");
    assert_eq!(RegisterRequest::decode(&bytes), Ok(request));
}

#[test]
fn register_request_unencrypted_flag_is_zero() {
    let request = RegisterRequest {
        encrypted: false,
        salt: [0; 16],
        iv: [0; 16],
        net_id: b"n".to_vec(),
        sock_addr: b"a".to_vec(),
    };
    let bytes = request.encode().unwrap();
    assert_eq!(bytes[1], 0);
    assert_eq!(RegisterRequest::decode(&bytes), Ok(request));
}

#[test]
fn register_request_too_long_fields_are_not_encoded() {
    let mut request = RegisterRequest {
        encrypted: false,
        salt: [0; 16],
        iv: [0; 16],
        net_id: vec![b'a'; 256],
        sock_addr: b"a".to_vec(),
    };
    assert_eq!(request.encode(), None);
    request.net_id = vec![b'a'; 255];
    assert!(request.encode().is_some());
    request.sock_addr = vec![b'a'; 256];
    assert_eq!(request.encode(), None);
}

#[test]
fn register_request_truncated_is_malformed() {
    let request = RegisterRequest {
        encrypted: true,
        salt: block(1),
        iv: block(50),
        net_id: b"alpha".to_vec(),
        sock_addr: b"1.2.3.4:5".to_vec(),
    };
    let bytes = request.encode().unwrap();
    for cut in 0..bytes.len() {
        assert_eq!(RegisterRequest::decode(&bytes[..cut]), Err(MalformedMessage));
    }
    let mut longer = bytes.clone();
    longer.push(0);
    assert_eq!(RegisterRequest::decode(&longer), Ok(request));
}

#[test]
fn heartbeat_request_layout() {
    let request = HeartbeatRequest {
        iv: block(7),
        net_id: b"alpha".to_vec(),
        sock_addr: b"1.2.3.4:5".to_vec(),
    };
    let bytes = request.encode().unwrap();
    assert_eq!(bytes.len(), 19 + 5 + 9);
    assert_eq!(bytes[0], 3);
    assert_eq!(bytes[1], 5);
    assert_eq!(bytes[2], 9);
    assert_eq!(&bytes[3..19], &block(7)[..]);
    assert_eq!(&bytes[19..24], b"alpha");
    assert_eq!(&bytes[24..], b"1.2.3.4:5");
    assert_eq!(HeartbeatRequest::decode(&bytes), Ok(request));
    for cut in 0..bytes.len() {
        assert_eq!(HeartbeatRequest::decode(&bytes[..cut]), Err(MalformedMessage));
    }
}

#[test]
fn heartbeat_request_too_long_fields_are_not_encoded() {
    let request =
        HeartbeatRequest { iv: block(7), net_id: vec![1; 300], sock_addr: b"x".to_vec() };
    assert_eq!(request.encode(), None);
    let request =
        HeartbeatRequest { iv: block(7), net_id: b"x".to_vec(), sock_addr: vec![1; 256] };
    assert_eq!(request.encode(), None);
}

#[test]
fn get_response_layout() {
    let response = GetResponse {
        encrypted: true,
        salt: block(1),
        members: vec![
            Member { iv: block(20), sock_addr: b"1.2.3.4:5".to_vec() },
            Member { iv: block(40), sock_addr: b"10.0.0.1:4000".to_vec() },
        ],
    };
    let bytes = response.encode().unwrap();
    assert_eq!(bytes.len(), 19 + (1 + 16 + 9) + (1 + 16 + 13));
    assert_eq!(bytes[0], 2);
    assert_eq!(bytes[1], 1);
    assert_eq!(bytes[2], 2);
    assert_eq!(&bytes[3..19], &block(1)[..]);
    assert_eq!(bytes[19], 9);
    assert_eq!(&bytes[20..36], &block(20)[..]);
    assert_eq!(&bytes[36..45], b"1.2.3.4:5");
    assert_eq!(bytes[45], 13);
    assert_eq!(&bytes[46..62], &block(40)[..]);
    assert_eq!(&bytes[62..], b"10.0.0.1:4000");
    assert_eq!(GetResponse::decode(&bytes), Ok(response));
}

#[test]
fn get_response_without_members() {
    let response = GetResponse { encrypted: false, salt: [0; 16], members: vec![] };
    let bytes = response.encode().unwrap();
    assert_eq!(bytes.len(), 19);
    assert_eq!(bytes[2], 0);
    assert_eq!(GetResponse::decode(&bytes), Ok(response));
}

#[test]
fn get_response_truncated_is_malformed() {
    let response = GetResponse {
        encrypted: true,
        salt: block(1),
        members: vec![
            Member { iv: block(20), sock_addr: b"1.2.3.4:5".to_vec() },
            Member { iv: block(40), sock_addr: b"10.0.0.1:4000".to_vec() },
        ],
    };
    let bytes = response.encode().unwrap();
    for cut in 0..bytes.len() {
        assert_eq!(GetResponse::decode(&bytes[..cut]), Err(MalformedMessage));
    }
    let mut lying = bytes.clone();
    lying[2] = 3;
    assert_eq!(GetResponse::decode(&lying), Err(MalformedMessage));
    let mut lying = bytes.clone();
    lying[45] = 14;
    assert_eq!(GetResponse::decode(&lying), Err(MalformedMessage));
}

#[test]
fn get_response_limits() {
    let many: Vec<Member> =
        (0..256).map(|_| Member { iv: [0; 16], sock_addr: b"a".to_vec() }).collect();
    let response = GetResponse { encrypted: false, salt: [0; 16], members: many };
    assert_eq!(response.encode(), None);
    let most: Vec<Member> =
        (0..255).map(|_| Member { iv: [0; 16], sock_addr: b"a".to_vec() }).collect();
    let response = GetResponse { encrypted: false, salt: [0; 16], members: most };
    let bytes = response.encode().unwrap();
    assert_eq!(bytes[2], 255);
    assert_eq!(GetResponse::decode(&bytes), Ok(response));
    let long = GetResponse {
        encrypted: false,
        salt: [0; 16],
        members: vec![Member { iv: [0; 16], sock_addr: vec![1; 256] }],
    };
    assert_eq!(long.encode(), None);
}

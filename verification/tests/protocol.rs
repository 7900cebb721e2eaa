use pea_2_pea::{
    GetRequestDataPositions, GetResponseDataPositions, HeartBeatRequestDataPositions, IoError,
    IoErrorKind, P2PMethods, P2PStandardDataPositions, RegisterRequestDataPositions,
    ServerErrorResponses, ServerMethods, ServerResponse, BLOCK_SIZE, DEFAULT_NETWORK_PREFIX,
    DEFAULT_TIMEOUT, DEST_IN_IPV4_OFFSET, HEARTBEAT_EXPIRY, IPV4_SIZE, IP_BUFFER_SIZE,
    KEY_DERIVATION_ROUNDS, KEY_SIZE, MAPPING_SHOT_COUNT, SERVER_PORT, STANDARD_RETRY_MAX,
    UDP_BUFFER_SIZE,
};

#[test]
fn constants_have_their_values() {
    assert_eq!(SERVER_PORT, 3543);
    assert_eq!(UDP_BUFFER_SIZE, 65527);
    assert_eq!(IP_BUFFER_SIZE, 65535);
    assert_eq!(DEFAULT_TIMEOUT, 10);
    assert_eq!(BLOCK_SIZE, 16);
    assert_eq!(KEY_SIZE, 32);
    assert_eq!(STANDARD_RETRY_MAX, 10);
    assert_eq!(DEST_IN_IPV4_OFFSET, 16);
    assert_eq!(IPV4_SIZE, 4);
    assert_eq!(MAPPING_SHOT_COUNT, 5);
    assert_eq!(HEARTBEAT_EXPIRY, 120);
    assert_eq!(KEY_DERIVATION_ROUNDS, 10000);
    assert_eq!(DEFAULT_NETWORK_PREFIX, [172, 22, 44]);
}

#[test]
fn server_method_codes() {
    assert_eq!(ServerMethods::QUERY.code(), 0);
    assert_eq!(ServerMethods::REGISTER.code(), 1);
    assert_eq!(ServerMethods::GET.code(), 2);
    assert_eq!(ServerMethods::HEARTBEAT.code(), 3);
    for b in 0..=255u8 {
        match ServerMethods::from_code(b) {
            Some(m) => assert_eq!(m.code(), b),
            None => assert!(b > 3),
        }
    }
}

#[test]
fn server_response_codes() {
    assert_eq!(ServerResponse::GENERAL_ERROR.code(), 255);
    assert_eq!(ServerResponse::ID_EXISTS.code(), 254);
    assert_eq!(ServerResponse::ID_DOESNT_EXIST.code(), 253);
    assert_eq!(ServerResponse::IO.code(), 252);
}

#[test]
fn peer_method_codes() {
    assert_eq!(P2PMethods::PEER_QUERY.code(), 20);
    assert_eq!(P2PMethods::PEER_HELLO.code(), 21);
    assert_eq!(P2PMethods::PEER_GOODBYE.code(), 22);
    assert_eq!(P2PMethods::PACKET.code(), 23);
    assert_eq!(P2PMethods::NEW_CLIENT_NOTIFY.code(), 24);
    assert_eq!(P2PMethods::DO_NOTHING.code(), 25);
    for b in 0..=255u8 {
        match P2PMethods::from_code(b) {
            Some(m) => assert_eq!(m.code(), b),
            None => assert!(b < 20 || b > 25),
        }
    }
}

#[test]
fn field_offsets() {
    assert_eq!(RegisterRequestDataPositions::ENCRYPTED.offset(), 1);
    assert_eq!(RegisterRequestDataPositions::ID_LEN.offset(), 2);
    assert_eq!(RegisterRequestDataPositions::SOCKADDR_LEN.offset(), 3);
    assert_eq!(RegisterRequestDataPositions::SALT.offset(), 4);
    assert_eq!(RegisterRequestDataPositions::IV.offset(), 20);
    assert_eq!(RegisterRequestDataPositions::DATA.offset(), 36);
    assert_eq!(GetRequestDataPositions::ID.offset(), 1);
    assert_eq!(GetResponseDataPositions::ENCRYPTED.offset(), 1);
    assert_eq!(GetResponseDataPositions::NUM_OF_CLIENTS.offset(), 2);
    assert_eq!(GetResponseDataPositions::SALT.offset(), 3);
    assert_eq!(GetResponseDataPositions::CLIENTS.offset(), 19);
    assert_eq!(HeartBeatRequestDataPositions::ID_LEN.offset(), 1);
    assert_eq!(HeartBeatRequestDataPositions::SOCKADDR_LEN.offset(), 2);
    assert_eq!(HeartBeatRequestDataPositions::IV.offset(), 3);
    assert_eq!(HeartBeatRequestDataPositions::DATA.offset(), 19);
    assert_eq!(P2PStandardDataPositions::IV.offset(), 1);
    assert_eq!(P2PStandardDataPositions::DATA.offset(), 17);
}

#[test]
fn kind_names_the_variant() {
    assert_eq!(
        ServerErrorResponses::GENERAL_ERROR("x".to_string()).kind(),
        ServerResponse::GENERAL_ERROR
    );
    assert_eq!(ServerErrorResponses::ID_EXISTS.kind(), ServerResponse::ID_EXISTS);
    assert_eq!(ServerErrorResponses::ID_DOESNT_EXIST.kind(), ServerResponse::ID_DOESNT_EXIST);
    let io = IoError::new(IoErrorKind::TimedOut, "late".to_string());
    assert_eq!(ServerErrorResponses::IO(io).kind(), ServerResponse::IO);
}

#[test]
fn message_is_the_text_for_the_user() {
    assert_eq!(
        ServerErrorResponses::GENERAL_ERROR("boom".to_string()).message(),
        "General error: boom"
    );
    assert_eq!(ServerErrorResponses::ID_EXISTS.message(), "ID is already registered");
    assert_eq!(ServerErrorResponses::ID_DOESNT_EXIST.message(), "ID isn't yet registered");
    let io = IoError::new(IoErrorKind::TimedOut, "late".to_string());
    assert_eq!(ServerErrorResponses::IO(io).message(), "IO error: late");
}

#[test]
fn into_io_error_unwraps_or_wraps() {
    let io = IoError::new(IoErrorKind::ConnectionRefused, "refused".to_string());
    assert_eq!(ServerErrorResponses::IO(io.clone()).into_io_error(), io);
    assert_eq!(ServerErrorResponses::from(io.clone()), ServerErrorResponses::IO(io));
    assert_eq!(
        ServerErrorResponses::ID_EXISTS.into_io_error(),
        IoError::new(IoErrorKind::Other, "ID is already registered".to_string())
    );
    assert_eq!(
        ServerErrorResponses::ID_DOESNT_EXIST.into_io_error(),
        IoError::new(IoErrorKind::Other, "ID isn't yet registered".to_string())
    );
    assert_eq!(
        ServerErrorResponses::GENERAL_ERROR("boom".to_string()).into_io_error(),
        IoError::new(IoErrorKind::Other, "General error: boom".to_string())
    );
}

#[test]
fn io_error_kinds_are_classified() {
    for kind in [
        IoErrorKind::ConnectionReset,
        IoErrorKind::ConnectionRefused,
        IoErrorKind::NetworkUnreachable,
        IoErrorKind::HostUnreachable,
    ] {
        assert!(kind.is_unreachable());
        assert!(!kind.is_timeout());
    }
    for kind in [IoErrorKind::TimedOut, IoErrorKind::WouldBlock] {
        assert!(kind.is_timeout());
        assert!(!kind.is_unreachable());
    }
    for kind in [IoErrorKind::InvalidData, IoErrorKind::InvalidInput, IoErrorKind::Other] {
        assert!(!kind.is_timeout());
        assert!(!kind.is_unreachable());
    }
}

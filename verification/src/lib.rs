//! A peer-to-peer virtual private network: the wire protocol, the registrar's
//! membership registry, the retry discipline of the transport and the client's
//! packet routing, each with a machine-checked contract.
//!
//! Sockets, the virtual interface, clocks' ticking and threads stay with the
//! program that links this library; it hands the library bytes and addresses
//! and performs the actions the library decides on.

use vstd::prelude::*;

use crate::shared::text::concat;

pub mod agreement;
pub mod client;
pub mod server;
pub mod shared;

verus! {

/// Port on which the registrar listens.
pub const SERVER_PORT: u16 = 3543;

/// Largest UDP payload a datagram may carry.
pub const UDP_BUFFER_SIZE: usize = 65527;

/// Largest raw IP packet read from the virtual interface.
pub const IP_BUFFER_SIZE: usize = 65535;

/// Seconds a reliable request waits for a datagram before it counts a timeout.
pub const DEFAULT_TIMEOUT: u64 = 10;

/// Size in bytes of a cipher block, of every salt and of every IV.
pub const BLOCK_SIZE: usize = 16;

/// Size in bytes of the symmetric key.
pub const KEY_SIZE: usize = 32;

/// Timeouts a reliable request tolerates before it gives up.
pub const STANDARD_RETRY_MAX: usize = 10;

/// Offset of the destination address in an IPv4 header.
pub const DEST_IN_IPV4_OFFSET: usize = 16;

/// Size in bytes of an IPv4 address.
pub const IPV4_SIZE: usize = 4;

/// Number of no-op datagrams in one hole-punching salvo.
pub const MAPPING_SHOT_COUNT: u8 = 5;

/// Seconds without a heartbeat after which a member counts as gone.
pub const HEARTBEAT_EXPIRY: i64 = 120;

/// Rounds of the password-based key derivation.
pub const KEY_DERIVATION_ROUNDS: u32 = 10000;

/// The three leading octets of every private address.
pub const DEFAULT_NETWORK_PREFIX: [u8; 3] = [172, 22, 44];

/// Requests a client sends to the registrar.
#[allow(non_camel_case_types)]
#[derive(Clone, Copy, Debug, PartialEq, Eq, Structural)]
pub enum ServerMethods {
    /// Reflect the address the registrar observed for the sender.
    QUERY,
    REGISTER,
    GET,
    /// Refreshes a member, and adds one that is not yet known.
    HEARTBEAT,
}

impl ServerMethods {
    /// The method byte on the wire.
    pub open spec fn spec_code(self) -> u8 {
        match self {
            ServerMethods::QUERY => 0,
            ServerMethods::REGISTER => 1,
            ServerMethods::GET => 2,
            ServerMethods::HEARTBEAT => 3,
        }
    }

    #[verifier::when_used_as_spec(spec_code)]
    pub fn code(self) -> (b: u8)
        ensures
            b == self.spec_code(),
    {
        match self {
            ServerMethods::QUERY => 0,
            ServerMethods::REGISTER => 1,
            ServerMethods::GET => 2,
            ServerMethods::HEARTBEAT => 3,
        }
    }

    /// The method that a leading byte names, if any.
    pub open spec fn spec_from_code(b: u8) -> Option<ServerMethods> {
        if b == 0 {
            Some(ServerMethods::QUERY)
        } else if b == 1 {
            Some(ServerMethods::REGISTER)
        } else if b == 2 {
            Some(ServerMethods::GET)
        } else if b == 3 {
            Some(ServerMethods::HEARTBEAT)
        } else {
            None
        }
    }

    #[verifier::when_used_as_spec(spec_from_code)]
    pub fn from_code(b: u8) -> (m: Option<ServerMethods>)
        ensures
            m == ServerMethods::spec_from_code(b),
            m matches Some(x) ==> x.spec_code() == b,
    {
        if b == 0 {
            Some(ServerMethods::QUERY)
        } else if b == 1 {
            Some(ServerMethods::REGISTER)
        } else if b == 2 {
            Some(ServerMethods::GET)
        } else if b == 3 {
            Some(ServerMethods::HEARTBEAT)
        } else {
            None
        }
    }
}

/// A method is named by its own byte and by no other.
pub proof fn server_method_codes_are_distinct(m: ServerMethods, b: u8)
    ensures
        ServerMethods::spec_from_code(m.spec_code()) == Some(m),
        ServerMethods::spec_from_code(b) == Some(m) <==> b == m.spec_code(),
{
}

/// Leading bytes with which the registrar reports a failure, and the marker
/// for a local I/O failure.
#[allow(non_camel_case_types)]
#[derive(Clone, Copy, Debug, PartialEq, Eq, Structural)]
pub enum ServerResponse {
    GENERAL_ERROR,
    ID_EXISTS,
    ID_DOESNT_EXIST,
    IO,
}

impl ServerResponse {
    /// The response byte on the wire.
    pub open spec fn spec_code(self) -> u8 {
        match self {
            ServerResponse::GENERAL_ERROR => 255,
            ServerResponse::ID_EXISTS => 254,
            ServerResponse::ID_DOESNT_EXIST => 253,
            ServerResponse::IO => 252,
        }
    }

    #[verifier::when_used_as_spec(spec_code)]
    pub fn code(self) -> (b: u8)
        ensures
            b == self.spec_code(),
    {
        match self {
            ServerResponse::GENERAL_ERROR => 255,
            ServerResponse::ID_EXISTS => 254,
            ServerResponse::ID_DOESNT_EXIST => 253,
            ServerResponse::IO => 252,
        }
    }
}

/// What went wrong in an I/O operation, as far as the protocol cares.
#[derive(Clone, Copy, Debug, PartialEq, Eq, Structural)]
pub enum IoErrorKind {
    ConnectionReset,
    ConnectionRefused,
    NetworkUnreachable,
    HostUnreachable,
    TimedOut,
    WouldBlock,
    InvalidData,
    InvalidInput,
    Other,
}

impl IoErrorKind {
    /// The destination cannot be reached, so that sending again is pointless.
    pub open spec fn spec_is_unreachable(self) -> bool {
        self == IoErrorKind::ConnectionReset || self == IoErrorKind::ConnectionRefused
            || self == IoErrorKind::NetworkUnreachable || self == IoErrorKind::HostUnreachable
    }

    #[verifier::when_used_as_spec(spec_is_unreachable)]
    pub fn is_unreachable(self) -> (b: bool)
        ensures
            b == self.spec_is_unreachable(),
    {
        match self {
            IoErrorKind::ConnectionReset => true,
            IoErrorKind::ConnectionRefused => true,
            IoErrorKind::NetworkUnreachable => true,
            IoErrorKind::HostUnreachable => true,
            _ => false,
        }
    }

    /// No datagram arrived within the receive timeout.
    pub open spec fn spec_is_timeout(self) -> bool {
        self == IoErrorKind::TimedOut || self == IoErrorKind::WouldBlock
    }

    #[verifier::when_used_as_spec(spec_is_timeout)]
    pub fn is_timeout(self) -> (b: bool)
        ensures
            b == self.spec_is_timeout(),
    {
        match self {
            IoErrorKind::TimedOut => true,
            IoErrorKind::WouldBlock => true,
            _ => false,
        }
    }
}

/// An I/O failure: its kind and its text.
#[derive(Clone, Debug, PartialEq, Eq)]
pub struct IoError {
    pub kind: IoErrorKind,
    pub message: String,
}

impl IoError {
    pub fn new(kind: IoErrorKind, message: String) -> (e: IoError)
        ensures
            e.kind == kind,
            e.message == message,
    {
        IoError { kind, message }
    }
}

/// A failed request: what the registrar answered, or the local I/O failure.
#[allow(non_camel_case_types)]
#[derive(Clone, Debug, PartialEq, Eq)]
pub enum ServerErrorResponses {
    GENERAL_ERROR(String),
    ID_EXISTS,
    ID_DOESNT_EXIST,
    IO(IoError),
}

/// A failed request as plain values.
#[allow(non_camel_case_types)]
pub enum ServerErrorView {
    GENERAL_ERROR(Seq<char>),
    ID_EXISTS,
    ID_DOESNT_EXIST,
    IO(IoErrorKind, Seq<char>),
}

impl View for ServerErrorResponses {
    type V = ServerErrorView;

    open spec fn view(&self) -> ServerErrorView {
        match self {
            ServerErrorResponses::GENERAL_ERROR(msg) => ServerErrorView::GENERAL_ERROR(msg@),
            ServerErrorResponses::ID_EXISTS => ServerErrorView::ID_EXISTS,
            ServerErrorResponses::ID_DOESNT_EXIST => ServerErrorView::ID_DOESNT_EXIST,
            ServerErrorResponses::IO(err) => ServerErrorView::IO(err.kind, err.message@),
        }
    }
}

impl ServerErrorResponses {
    /// The failure's kind, without its payload.
    pub open spec fn spec_kind(&self) -> ServerResponse {
        match self {
            ServerErrorResponses::GENERAL_ERROR(_) => ServerResponse::GENERAL_ERROR,
            ServerErrorResponses::ID_EXISTS => ServerResponse::ID_EXISTS,
            ServerErrorResponses::ID_DOESNT_EXIST => ServerResponse::ID_DOESNT_EXIST,
            ServerErrorResponses::IO(_) => ServerResponse::IO,
        }
    }

    #[verifier::when_used_as_spec(spec_kind)]
    pub fn kind(&self) -> (k: ServerResponse)
        ensures
            k == self.spec_kind(),
    {
        match self {
            ServerErrorResponses::GENERAL_ERROR(_) => ServerResponse::GENERAL_ERROR,
            ServerErrorResponses::ID_EXISTS => ServerResponse::ID_EXISTS,
            ServerErrorResponses::ID_DOESNT_EXIST => ServerResponse::ID_DOESNT_EXIST,
            ServerErrorResponses::IO(_) => ServerResponse::IO,
        }
    }

    /// The text a user reads for this failure.
    pub open spec fn spec_message(&self) -> Seq<char> {
        match self {
            ServerErrorResponses::GENERAL_ERROR(msg) => "General error: "@ + msg@,
            ServerErrorResponses::ID_EXISTS => "ID is already registered"@,
            ServerErrorResponses::ID_DOESNT_EXIST => "ID isn't yet registered"@,
            ServerErrorResponses::IO(err) => "IO error: "@ + err.message@,
        }
    }

    /// Writes the text a user reads for this failure.
    pub fn message(&self) -> (s: String)
        ensures
            s@ == self.spec_message(),
    {
        match self {
            ServerErrorResponses::GENERAL_ERROR(msg) => concat(
                "General error: ",
                msg.as_str(),
            ),
            ServerErrorResponses::ID_EXISTS => "ID is already registered".to_owned(),
            ServerErrorResponses::ID_DOESNT_EXIST => "ID isn't yet registered".to_owned(),
            ServerErrorResponses::IO(err) => concat(
                "IO error: ",
                err.message.as_str(),
            ),
        }
    }

    /// The failure as an I/O failure: the wrapped one as it is, any other as
    /// one of kind `Other` that carries this failure's text.
    pub fn into_io_error(self) -> (e: IoError)
        ensures
            self matches ServerErrorResponses::IO(inner) ==> e == inner,
            !(self is IO) ==> e.kind == IoErrorKind::Other && e.message@ == self.spec_message(),
    {
        match self {
            ServerErrorResponses::IO(io_err) => io_err,
            other => {
                let text = other.message();
                IoError { kind: IoErrorKind::Other, message: text }
            },
        }
    }
}

impl From<IoError> for ServerErrorResponses {
    /// Wraps an I/O failure.
    fn from(error: IoError) -> (e: ServerErrorResponses) {
        ServerErrorResponses::IO(error)
    }
}

impl vstd::std_specs::convert::FromSpecImpl<IoError> for ServerErrorResponses {
    open spec fn obeys_from_spec() -> bool {
        true
    }

    open spec fn from_spec(error: IoError) -> ServerErrorResponses {
        ServerErrorResponses::IO(error)
    }
}

/// Offsets of the fields of a REGISTER request.
#[allow(non_camel_case_types)]
#[derive(Clone, Copy, Debug, PartialEq, Eq, Structural)]
pub enum RegisterRequestDataPositions {
    /// Zero where the network is not encrypted.
    ENCRYPTED,
    ID_LEN,
    SOCKADDR_LEN,
    SALT,
    IV,
    /// The network id, then the address payload.
    DATA,
}

impl RegisterRequestDataPositions {
    pub open spec fn spec_offset(self) -> usize {
        match self {
            RegisterRequestDataPositions::ENCRYPTED => 1,
            RegisterRequestDataPositions::ID_LEN => 2,
            RegisterRequestDataPositions::SOCKADDR_LEN => 3,
            RegisterRequestDataPositions::SALT => 4,
            RegisterRequestDataPositions::IV => 20,
            RegisterRequestDataPositions::DATA => 36,
        }
    }

    #[verifier::when_used_as_spec(spec_offset)]
    pub fn offset(self) -> (o: usize)
        ensures
            o == self.spec_offset(),
    {
        match self {
            RegisterRequestDataPositions::ENCRYPTED => 1,
            RegisterRequestDataPositions::ID_LEN => 2,
            RegisterRequestDataPositions::SOCKADDR_LEN => 3,
            RegisterRequestDataPositions::SALT => 4,
            RegisterRequestDataPositions::IV => 4 + BLOCK_SIZE,
            RegisterRequestDataPositions::DATA => 4 + BLOCK_SIZE + BLOCK_SIZE,
        }
    }
}

/// Offsets of the fields of a GET request.
#[allow(non_camel_case_types)]
#[derive(Clone, Copy, Debug, PartialEq, Eq, Structural)]
pub enum GetRequestDataPositions {
    /// The id fills the rest of the datagram.
    ID,
}

impl GetRequestDataPositions {
    pub open spec fn spec_offset(self) -> usize {
        1
    }

    #[verifier::when_used_as_spec(spec_offset)]
    pub fn offset(self) -> (o: usize)
        ensures
            o == self.spec_offset(),
    {
        1
    }
}

/// Offsets of the fields of a GET response.
#[allow(non_camel_case_types)]
#[derive(Clone, Copy, Debug, PartialEq, Eq, Structural)]
pub enum GetResponseDataPositions {
    /// Zero where the network is not encrypted.
    ENCRYPTED,
    NUM_OF_CLIENTS,
    SALT,
    /// One block per member: a length byte, the IV, the address payload.
    CLIENTS,
}

impl GetResponseDataPositions {
    pub open spec fn spec_offset(self) -> usize {
        match self {
            GetResponseDataPositions::ENCRYPTED => 1,
            GetResponseDataPositions::NUM_OF_CLIENTS => 2,
            GetResponseDataPositions::SALT => 3,
            GetResponseDataPositions::CLIENTS => 19,
        }
    }

    #[verifier::when_used_as_spec(spec_offset)]
    pub fn offset(self) -> (o: usize)
        ensures
            o == self.spec_offset(),
    {
        match self {
            GetResponseDataPositions::ENCRYPTED => 1,
            GetResponseDataPositions::NUM_OF_CLIENTS => 2,
            GetResponseDataPositions::SALT => 3,
            GetResponseDataPositions::CLIENTS => 3 + BLOCK_SIZE,
        }
    }
}

/// Offsets of the fields of a HEARTBEAT request.
#[allow(non_camel_case_types)]
#[derive(Clone, Copy, Debug, PartialEq, Eq, Structural)]
pub enum HeartBeatRequestDataPositions {
    ID_LEN,
    SOCKADDR_LEN,
    IV,
    /// The network id, then the address payload.
    DATA,
}

impl HeartBeatRequestDataPositions {
    pub open spec fn spec_offset(self) -> usize {
        match self {
            HeartBeatRequestDataPositions::ID_LEN => 1,
            HeartBeatRequestDataPositions::SOCKADDR_LEN => 2,
            HeartBeatRequestDataPositions::IV => 3,
            HeartBeatRequestDataPositions::DATA => 19,
        }
    }

    #[verifier::when_used_as_spec(spec_offset)]
    pub fn offset(self) -> (o: usize)
        ensures
            o == self.spec_offset(),
    {
        match self {
            HeartBeatRequestDataPositions::ID_LEN => 1,
            HeartBeatRequestDataPositions::SOCKADDR_LEN => 2,
            HeartBeatRequestDataPositions::IV => 3,
            HeartBeatRequestDataPositions::DATA => 3 + BLOCK_SIZE,
        }
    }
}

/// Messages that peers send to each other.
#[allow(non_camel_case_types)]
#[derive(Clone, Copy, Debug, PartialEq, Eq, Structural)]
pub enum P2PMethods {
    /// Answered with the receiver's private address.
    PEER_QUERY,
    /// Announces the sender's private address.
    PEER_HELLO,
    /// Withdraws the sender's private address.
    PEER_GOODBYE,
    /// Carries one raw IP packet.
    PACKET,
    NEW_CLIENT_NOTIFY,
    DO_NOTHING,
}

impl P2PMethods {
    /// The method byte on the wire.
    pub open spec fn spec_code(self) -> u8 {
        match self {
            P2PMethods::PEER_QUERY => 20,
            P2PMethods::PEER_HELLO => 21,
            P2PMethods::PEER_GOODBYE => 22,
            P2PMethods::PACKET => 23,
            P2PMethods::NEW_CLIENT_NOTIFY => 24,
            P2PMethods::DO_NOTHING => 25,
        }
    }

    #[verifier::when_used_as_spec(spec_code)]
    pub fn code(self) -> (b: u8)
        ensures
            b == self.spec_code(),
    {
        match self {
            P2PMethods::PEER_QUERY => 20,
            P2PMethods::PEER_HELLO => 21,
            P2PMethods::PEER_GOODBYE => 22,
            P2PMethods::PACKET => 23,
            P2PMethods::NEW_CLIENT_NOTIFY => 24,
            P2PMethods::DO_NOTHING => 25,
        }
    }

    /// The method that a leading byte names, if any.
    pub open spec fn spec_from_code(b: u8) -> Option<P2PMethods> {
        if b == 20 {
            Some(P2PMethods::PEER_QUERY)
        } else if b == 21 {
            Some(P2PMethods::PEER_HELLO)
        } else if b == 22 {
            Some(P2PMethods::PEER_GOODBYE)
        } else if b == 23 {
            Some(P2PMethods::PACKET)
        } else if b == 24 {
            Some(P2PMethods::NEW_CLIENT_NOTIFY)
        } else if b == 25 {
            Some(P2PMethods::DO_NOTHING)
        } else {
            None
        }
    }

    #[verifier::when_used_as_spec(spec_from_code)]
    pub fn from_code(b: u8) -> (m: Option<P2PMethods>)
        ensures
            m == P2PMethods::spec_from_code(b),
            m matches Some(x) ==> x.spec_code() == b,
    {
        if b == 20 {
            Some(P2PMethods::PEER_QUERY)
        } else if b == 21 {
            Some(P2PMethods::PEER_HELLO)
        } else if b == 22 {
            Some(P2PMethods::PEER_GOODBYE)
        } else if b == 23 {
            Some(P2PMethods::PACKET)
        } else if b == 24 {
            Some(P2PMethods::NEW_CLIENT_NOTIFY)
        } else if b == 25 {
            Some(P2PMethods::DO_NOTHING)
        } else {
            None
        }
    }
}

/// A method is named by its own byte and by no other.
pub proof fn peer_method_codes_are_distinct(m: P2PMethods, b: u8)
    ensures
        P2PMethods::spec_from_code(m.spec_code()) == Some(m),
        P2PMethods::spec_from_code(b) == Some(m) <==> b == m.spec_code(),
{
}

/// Offsets of the fields that every peer-to-peer message shares.
#[allow(non_camel_case_types)]
#[derive(Clone, Copy, Debug, PartialEq, Eq, Structural)]
pub enum P2PStandardDataPositions {
    IV,
    DATA,
}

impl P2PStandardDataPositions {
    pub open spec fn spec_offset(self) -> usize {
        match self {
            P2PStandardDataPositions::IV => 1,
            P2PStandardDataPositions::DATA => 17,
        }
    }

    #[verifier::when_used_as_spec(spec_offset)]
    pub fn offset(self) -> (o: usize)
        ensures
            o == self.spec_offset(),
    {
        match self {
            P2PStandardDataPositions::IV => 1,
            P2PStandardDataPositions::DATA => 1 + BLOCK_SIZE,
        }
    }
}

} // verus!

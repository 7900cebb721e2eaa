//! The wire format: every message as bytes, field by field.
//!
//! Each message starts with its method byte. Lengths are single bytes, salts
//! and IVs are one block long. A decoder never reads past the bytes it was
//! given: a length that points beyond them makes the message malformed.

use vstd::prelude::*;
use vstd::seq_lib::lemma_concat_associative;

use crate::{
    GetRequestDataPositions, GetResponseDataPositions, HeartBeatRequestDataPositions,
    P2PStandardDataPositions, RegisterRequestDataPositions, ServerMethods, BLOCK_SIZE,
};

verus! {

/// A message whose fields do not fit the bytes received.
#[derive(Clone, Copy, Debug, PartialEq, Eq, Structural)]
pub struct MalformedMessage;

/// Copies the bytes from `from` up to `to`.
pub fn copy_range(bytes: &[u8], from: usize, to: usize) -> (out: Vec<u8>)
    requires
        from <= to <= bytes@.len(),
    ensures
        out@ == bytes@.subrange(from as int, to as int),
{
    let mut out: Vec<u8> = Vec::new();
    let mut i: usize = from;
    while i < to
        invariant
            from <= i <= to <= bytes@.len(),
            out@ == bytes@.subrange(from as int, i as int),
        decreases to - i,
    {
        out.push(bytes[i]);
        i += 1;
        assert(out@ =~= bytes@.subrange(from as int, i as int));
    }
    out
}

/// Copies the block that starts at `at`.
pub fn copy_block(bytes: &[u8], at: usize) -> (block: [u8; 16])
    requires
        at + 16 <= bytes@.len(),
    ensures
        block@ == bytes@.subrange(at as int, at + 16),
{
    let mut block: [u8; 16] = [0u8; 16];
    let n = bytes.len();
    let mut i: usize = 0;
    while i < 16
        invariant
            i <= 16,
            n == bytes@.len(),
            at + 16 <= bytes@.len(),
            forall|j: int| 0 <= j < i ==> block[j] == bytes[at + j],
        decreases 16 - i,
    {
        block[i] = bytes[at + i];
        i += 1;
    }
    assert(block@ =~= bytes@.subrange(at as int, at + 16));
    block
}

/// A block of zeros: the salt and the IV of what is not encrypted.
pub fn zero_block() -> (block: [u8; 16])
    ensures
        block@ == Seq::new(16, |i: int| 0u8),
{
    let block: [u8; 16] = [0u8; 16];
    assert(block@ =~= Seq::new(16, |i: int| 0u8));
    block
}

/// A key of zeros: the key of a network without a password.
pub fn zero_key() -> (key: [u8; 32])
    ensures
        key@ == Seq::new(32, |i: int| 0u8),
{
    let key: [u8; 32] = [0u8; 32];
    assert(key@ =~= Seq::new(32, |i: int| 0u8));
    key
}

/// The byte that stands for a flag.
pub open spec fn flag_byte(flag: bool) -> u8 {
    if flag {
        1
    } else {
        0
    }
}

// ---------------------------------------------------------------------------
// Peer-to-peer messages
// ---------------------------------------------------------------------------
/// A peer-to-peer message: the method, the IV, the payload.
pub open spec fn spec_p2p_message(method: u8, iv: Seq<u8>, payload: Seq<u8>) -> Seq<u8> {
    seq![method] + iv + payload
}

/// Whether a datagram is long enough to hold the IV of a peer-to-peer message.
pub open spec fn spec_p2p_well_formed(datagram: Seq<u8>) -> bool {
    datagram.len() >= P2PStandardDataPositions::DATA.spec_offset()
}

/// The IV of a peer-to-peer message.
pub open spec fn spec_p2p_iv(datagram: Seq<u8>) -> Seq<u8> {
    datagram.subrange(
        P2PStandardDataPositions::IV.spec_offset() as int,
        P2PStandardDataPositions::IV.spec_offset() + BLOCK_SIZE,
    )
}

/// The payload of a peer-to-peer message: all that follows the IV.
pub open spec fn spec_p2p_payload(datagram: Seq<u8>) -> Seq<u8> {
    datagram.subrange(P2PStandardDataPositions::DATA.spec_offset() as int, datagram.len() as int)
}

/// Builds a peer-to-peer message.
pub fn p2p_message(method: u8, iv: &[u8; 16], payload: &[u8]) -> (out: Vec<u8>)
    ensures
        out@ == spec_p2p_message(method, iv@, payload@),
{
    let mut out: Vec<u8> = Vec::new();
    out.push(method);
    out.extend_from_slice(iv.as_slice());
    out.extend_from_slice(payload);
    out
}

/// Splits a peer-to-peer message into its IV and its payload; `None` where
/// the datagram is too short to hold an IV.
pub fn p2p_fields(datagram: &[u8]) -> (r: Option<([u8; 16], Vec<u8>)>)
    ensures
        r is Some <==> spec_p2p_well_formed(datagram@),
        r matches Some(fields) ==> fields.0@ == spec_p2p_iv(datagram@) && fields.1@
            == spec_p2p_payload(datagram@),
{
    let data = P2PStandardDataPositions::DATA.offset();
    if datagram.len() < data {
        return None;
    }
    let iv = copy_block(datagram, P2PStandardDataPositions::IV.offset());
    let payload = copy_range(datagram, data, datagram.len());
    Some((iv, payload))
}

/// A peer-to-peer message holds the fields it was built from.
pub proof fn p2p_message_round_trip(method: u8, iv: Seq<u8>, payload: Seq<u8>)
    requires
        iv.len() == 16,
    ensures
        spec_p2p_well_formed(spec_p2p_message(method, iv, payload)),
        spec_p2p_message(method, iv, payload)[0] == method,
        spec_p2p_iv(spec_p2p_message(method, iv, payload)) == iv,
        spec_p2p_payload(spec_p2p_message(method, iv, payload)) == payload,
{
    let m = spec_p2p_message(method, iv, payload);
    assert(spec_p2p_iv(m) =~= iv);
    assert(spec_p2p_payload(m) =~= payload);
}

// ---------------------------------------------------------------------------
// REGISTER
// ---------------------------------------------------------------------------
/// What a REGISTER request carries.
#[derive(Debug, PartialEq, Eq)]
pub struct RegisterRequest {
    pub encrypted: bool,
    pub salt: [u8; 16],
    pub iv: [u8; 16],
    pub net_id: Vec<u8>,
    pub sock_addr: Vec<u8>,
}

/// A REGISTER request as plain values.
pub struct RegisterRequestView {
    pub encrypted: bool,
    pub salt: Seq<u8>,
    pub iv: Seq<u8>,
    pub net_id: Seq<u8>,
    pub sock_addr: Seq<u8>,
}

impl View for RegisterRequest {
    type V = RegisterRequestView;

    open spec fn view(&self) -> RegisterRequestView {
        RegisterRequestView {
            encrypted: self.encrypted,
            salt: self.salt@,
            iv: self.iv@,
            net_id: self.net_id@,
            sock_addr: self.sock_addr@,
        }
    }
}

impl RegisterRequestView {
    /// The lengths fit their bytes.
    pub open spec fn encodable(self) -> bool {
        self.salt.len() == 16 && self.iv.len() == 16 && self.net_id.len() <= 255
            && self.sock_addr.len() <= 255
    }

    /// The request on the wire.
    pub open spec fn bytes(self) -> Seq<u8> {
        seq![
            ServerMethods::REGISTER.spec_code(),
            flag_byte(self.encrypted),
            self.net_id.len() as u8,
            self.sock_addr.len() as u8,
        ] + self.salt + self.iv + self.net_id + self.sock_addr
    }

    /// The request that a datagram holds.
    pub open spec fn parse(datagram: Seq<u8>) -> Option<RegisterRequestView> {
        let salt = RegisterRequestDataPositions::SALT.spec_offset() as int;
        let iv = RegisterRequestDataPositions::IV.spec_offset() as int;
        let data = RegisterRequestDataPositions::DATA.spec_offset() as int;
        if datagram.len() < data {
            None
        } else {
            let id_at = RegisterRequestDataPositions::ID_LEN.spec_offset() as int;
            let addr_at = RegisterRequestDataPositions::SOCKADDR_LEN.spec_offset() as int;
            let flag_at = RegisterRequestDataPositions::ENCRYPTED.spec_offset() as int;
            let id_len = datagram[id_at] as int;
            let addr_len = datagram[addr_at] as int;
            if data + id_len + addr_len > datagram.len() {
                None
            } else {
                Some(
                    RegisterRequestView {
                        encrypted: datagram[flag_at] != 0,
                        salt: datagram.subrange(salt, salt + BLOCK_SIZE),
                        iv: datagram.subrange(iv, iv + BLOCK_SIZE),
                        net_id: datagram.subrange(data, data + id_len),
                        sock_addr: datagram.subrange(data + id_len, data + id_len + addr_len),
                    },
                )
            }
        }
    }
}

impl RegisterRequest {
    /// Writes the request; `None` where a length does not fit its byte.
    pub fn encode(&self) -> (out: Option<Vec<u8>>)
        ensures
            out is Some <==> self@.encodable(),
            out matches Some(bytes) ==> bytes@ == self@.bytes(),
    {
        if self.net_id.len() > 255 || self.sock_addr.len() > 255 {
            return None;
        }
        let mut out: Vec<u8> = Vec::new();
        out.push(ServerMethods::REGISTER.code());
        out.push(if self.encrypted { 1u8 } else { 0u8 });
        out.push(self.net_id.len() as u8);
        out.push(self.sock_addr.len() as u8);
        out.extend_from_slice(self.salt.as_slice());
        out.extend_from_slice(self.iv.as_slice());
        out.extend_from_slice(self.net_id.as_slice());
        out.extend_from_slice(self.sock_addr.as_slice());
        assert(out@ =~= self@.bytes());
        Some(out)
    }

    /// Reads a request from the bytes received.
    pub fn decode(datagram: &[u8]) -> (r: Result<RegisterRequest, MalformedMessage>)
        ensures
            r is Ok <==> RegisterRequestView::parse(datagram@) is Some,
            r matches Ok(request) ==> RegisterRequestView::parse(datagram@) == Some(request@),
    {
        let data = RegisterRequestDataPositions::DATA.offset();
        if datagram.len() < data {
            return Err(MalformedMessage);
        }
        let id_len = datagram[RegisterRequestDataPositions::ID_LEN.offset()] as usize;
        let addr_len = datagram[RegisterRequestDataPositions::SOCKADDR_LEN.offset()] as usize;
        if data + id_len + addr_len > datagram.len() {
            return Err(MalformedMessage);
        }
        Ok(
            RegisterRequest {
                encrypted: datagram[RegisterRequestDataPositions::ENCRYPTED.offset()] != 0,
                salt: copy_block(datagram, RegisterRequestDataPositions::SALT.offset()),
                iv: copy_block(datagram, RegisterRequestDataPositions::IV.offset()),
                net_id: copy_range(datagram, data, data + id_len),
                sock_addr: copy_range(datagram, data + id_len, data + id_len + addr_len),
            },
        )
    }
}

/// A REGISTER request that was written is read back as it was.
pub proof fn register_request_round_trip(request: RegisterRequestView)
    requires
        request.encodable(),
    ensures
        request.bytes()[0] == ServerMethods::REGISTER.spec_code(),
        RegisterRequestView::parse(request.bytes()) == Some(request),
{
    let b = request.bytes();
    let parsed = RegisterRequestView::parse(b).unwrap();
    assert(parsed.salt =~= request.salt);
    assert(parsed.iv =~= request.iv);
    assert(parsed.net_id =~= request.net_id);
    assert(parsed.sock_addr =~= request.sock_addr);
}

// ---------------------------------------------------------------------------
// HEARTBEAT
// ---------------------------------------------------------------------------
/// What a HEARTBEAT request carries.
#[derive(Debug, PartialEq, Eq)]
pub struct HeartbeatRequest {
    pub iv: [u8; 16],
    pub net_id: Vec<u8>,
    pub sock_addr: Vec<u8>,
}

/// A HEARTBEAT request as plain values.
pub struct HeartbeatRequestView {
    pub iv: Seq<u8>,
    pub net_id: Seq<u8>,
    pub sock_addr: Seq<u8>,
}

impl View for HeartbeatRequest {
    type V = HeartbeatRequestView;

    open spec fn view(&self) -> HeartbeatRequestView {
        HeartbeatRequestView { iv: self.iv@, net_id: self.net_id@, sock_addr: self.sock_addr@ }
    }
}

impl HeartbeatRequestView {
    /// The lengths fit their bytes.
    pub open spec fn encodable(self) -> bool {
        self.iv.len() == 16 && self.net_id.len() <= 255 && self.sock_addr.len() <= 255
    }

    /// The request on the wire.
    pub open spec fn bytes(self) -> Seq<u8> {
        seq![
            ServerMethods::HEARTBEAT.spec_code(),
            self.net_id.len() as u8,
            self.sock_addr.len() as u8,
        ] + self.iv + self.net_id + self.sock_addr
    }

    /// The request that a datagram holds.
    pub open spec fn parse(datagram: Seq<u8>) -> Option<HeartbeatRequestView> {
        let iv = HeartBeatRequestDataPositions::IV.spec_offset() as int;
        let data = HeartBeatRequestDataPositions::DATA.spec_offset() as int;
        if datagram.len() < data {
            None
        } else {
            let id_at = HeartBeatRequestDataPositions::ID_LEN.spec_offset() as int;
            let addr_at = HeartBeatRequestDataPositions::SOCKADDR_LEN.spec_offset() as int;
            let id_len = datagram[id_at] as int;
            let addr_len = datagram[addr_at] as int;
            if data + id_len + addr_len > datagram.len() {
                None
            } else {
                Some(
                    HeartbeatRequestView {
                        iv: datagram.subrange(iv, iv + BLOCK_SIZE),
                        net_id: datagram.subrange(data, data + id_len),
                        sock_addr: datagram.subrange(data + id_len, data + id_len + addr_len),
                    },
                )
            }
        }
    }
}

impl HeartbeatRequest {
    /// Writes the request; `None` where a length does not fit its byte.
    pub fn encode(&self) -> (out: Option<Vec<u8>>)
        ensures
            out is Some <==> self@.encodable(),
            out matches Some(bytes) ==> bytes@ == self@.bytes(),
    {
        if self.net_id.len() > 255 || self.sock_addr.len() > 255 {
            return None;
        }
        let mut out: Vec<u8> = Vec::new();
        out.push(ServerMethods::HEARTBEAT.code());
        out.push(self.net_id.len() as u8);
        out.push(self.sock_addr.len() as u8);
        out.extend_from_slice(self.iv.as_slice());
        out.extend_from_slice(self.net_id.as_slice());
        out.extend_from_slice(self.sock_addr.as_slice());
        assert(out@ =~= self@.bytes());
        Some(out)
    }

    /// Reads a request from the bytes received.
    pub fn decode(datagram: &[u8]) -> (r: Result<HeartbeatRequest, MalformedMessage>)
        ensures
            r is Ok <==> HeartbeatRequestView::parse(datagram@) is Some,
            r matches Ok(request) ==> HeartbeatRequestView::parse(datagram@) == Some(request@),
    {
        let data = HeartBeatRequestDataPositions::DATA.offset();
        if datagram.len() < data {
            return Err(MalformedMessage);
        }
        let id_len = datagram[HeartBeatRequestDataPositions::ID_LEN.offset()] as usize;
        let addr_len = datagram[HeartBeatRequestDataPositions::SOCKADDR_LEN.offset()] as usize;
        if data + id_len + addr_len > datagram.len() {
            return Err(MalformedMessage);
        }
        Ok(
            HeartbeatRequest {
                iv: copy_block(datagram, HeartBeatRequestDataPositions::IV.offset()),
                net_id: copy_range(datagram, data, data + id_len),
                sock_addr: copy_range(datagram, data + id_len, data + id_len + addr_len),
            },
        )
    }
}

/// A HEARTBEAT request that was written is read back as it was.
pub proof fn heartbeat_request_round_trip(request: HeartbeatRequestView)
    requires
        request.encodable(),
    ensures
        request.bytes()[0] == ServerMethods::HEARTBEAT.spec_code(),
        HeartbeatRequestView::parse(request.bytes()) == Some(request),
{
    let b = request.bytes();
    let parsed = HeartbeatRequestView::parse(b).unwrap();
    assert(parsed.iv =~= request.iv);
    assert(parsed.net_id =~= request.net_id);
    assert(parsed.sock_addr =~= request.sock_addr);
}

// ---------------------------------------------------------------------------
// GET request, QUERY response, failures
// ---------------------------------------------------------------------------
/// A message of a leading byte and a body that fills the rest: a GET request
/// with its id, a QUERY response with the observed address, a general error
/// with its text.
pub open spec fn spec_tagged(tag: u8, body: Seq<u8>) -> Seq<u8> {
    seq![tag] + body
}

/// The body of a tagged message: all that follows the leading byte.
pub open spec fn spec_body(datagram: Seq<u8>) -> Seq<u8> {
    datagram.subrange(GetRequestDataPositions::ID.spec_offset() as int, datagram.len() as int)
}

/// Builds a message that is its leading byte alone: a request without
/// fields, an acknowledgment, a failure without text.
pub fn bare(tag: u8) -> (out: Vec<u8>)
    ensures
        out@ == seq![tag],
{
    let mut out: Vec<u8> = Vec::new();
    out.push(tag);
    assert(out@ =~= seq![tag]);
    out
}

/// Builds a message of a leading byte and a body.
pub fn tagged(tag: u8, body: &[u8]) -> (out: Vec<u8>)
    ensures
        out@ == spec_tagged(tag, body@),
{
    let mut out: Vec<u8> = Vec::new();
    out.push(tag);
    out.extend_from_slice(body);
    out
}

/// The body of a message that is not empty.
pub fn body(datagram: &[u8]) -> (out: Vec<u8>)
    requires
        datagram@.len() >= 1,
    ensures
        out@ == spec_body(datagram@),
{
    copy_range(datagram, GetRequestDataPositions::ID.offset(), datagram.len())
}

/// A tagged message holds the tag and the body it was built from.
pub proof fn tagged_round_trip(tag: u8, body: Seq<u8>)
    ensures
        spec_tagged(tag, body)[0] == tag,
        spec_body(spec_tagged(tag, body)) == body,
{
    assert(spec_body(spec_tagged(tag, body)) =~= body);
}

// ---------------------------------------------------------------------------
// GET response
// ---------------------------------------------------------------------------
/// A member of a network as a GET response lists it.
#[derive(Debug, PartialEq, Eq)]
pub struct Member {
    pub iv: [u8; 16],
    pub sock_addr: Vec<u8>,
}

/// A listed member as plain values.
pub struct MemberView {
    pub iv: Seq<u8>,
    pub sock_addr: Seq<u8>,
}

impl View for Member {
    type V = MemberView;

    open spec fn view(&self) -> MemberView {
        MemberView { iv: self.iv@, sock_addr: self.sock_addr@ }
    }
}

/// Listed members as plain values.
pub open spec fn members_view(members: Seq<Member>) -> Seq<MemberView> {
    members.map_values(|m: Member| m@)
}

impl MemberView {
    /// The IV is one block long and the length of the address fits its byte.
    pub open spec fn encodable(self) -> bool {
        self.iv.len() == 16 && self.sock_addr.len() <= 255
    }

    /// The block of one member: the length of its address, its IV, its
    /// address.
    pub open spec fn block(self) -> Seq<u8> {
        seq![self.sock_addr.len() as u8] + self.iv + self.sock_addr
    }
}

/// The blocks of the members, one after the other.
pub open spec fn spec_member_blocks(members: Seq<MemberView>) -> Seq<u8>
    decreases members.len(),
{
    if members.len() == 0 {
        Seq::empty()
    } else {
        spec_member_blocks(members.drop_last()) + members.last().block()
    }
}

/// The `count` members whose blocks start at `at`; `None` where a block
/// reaches beyond the datagram.
pub open spec fn spec_parse_members(datagram: Seq<u8>, at: int, count: nat) -> Option<
    Seq<MemberView>,
>
    decreases count,
{
    if count == 0 {
        Some(Seq::empty())
    } else if at < 0 || at + 17 > datagram.len() {
        None
    } else {
        let n = datagram[at] as int;
        if at + 17 + n > datagram.len() {
            None
        } else {
            match spec_parse_members(datagram, at + 17 + n, (count - 1) as nat) {
                Some(rest) => Some(
                    seq![
                        MemberView {
                            iv: datagram.subrange(at + 1, at + 17),
                            sock_addr: datagram.subrange(at + 17, at + 17 + n),
                        },
                    ] + rest,
                ),
                None => None,
            }
        }
    }
}

/// What a GET response carries.
#[derive(Debug, PartialEq, Eq)]
pub struct GetResponse {
    pub encrypted: bool,
    pub salt: [u8; 16],
    pub members: Vec<Member>,
}

/// A GET response as plain values.
pub struct GetResponseView {
    pub encrypted: bool,
    pub salt: Seq<u8>,
    pub members: Seq<MemberView>,
}

impl View for GetResponse {
    type V = GetResponseView;

    open spec fn view(&self) -> GetResponseView {
        GetResponseView {
            encrypted: self.encrypted,
            salt: self.salt@,
            members: members_view(self.members@),
        }
    }
}

impl GetResponseView {
    /// The member count and every length fit their bytes.
    pub open spec fn encodable(self) -> bool {
        &&& self.salt.len() == 16
        &&& self.members.len() <= 255
        &&& forall|i: int| 0 <= i < self.members.len() ==> (#[trigger] self.members[i]).encodable()
    }

    /// The response on the wire.
    pub open spec fn bytes(self) -> Seq<u8> {
        seq![ServerMethods::GET.spec_code(), flag_byte(self.encrypted), self.members.len() as u8]
            + self.salt + spec_member_blocks(self.members)
    }

    /// The response that a datagram holds.
    pub open spec fn parse(datagram: Seq<u8>) -> Option<GetResponseView> {
        let salt = GetResponseDataPositions::SALT.spec_offset() as int;
        let clients = GetResponseDataPositions::CLIENTS.spec_offset() as int;
        let count_at = GetResponseDataPositions::NUM_OF_CLIENTS.spec_offset() as int;
        let flag_at = GetResponseDataPositions::ENCRYPTED.spec_offset() as int;
        if datagram.len() < clients {
            None
        } else {
            match spec_parse_members(datagram, clients, datagram[count_at] as nat) {
                Some(members) => Some(
                    GetResponseView {
                        encrypted: datagram[flag_at] != 0,
                        salt: datagram.subrange(salt, salt + BLOCK_SIZE),
                        members,
                    },
                ),
                None => None,
            }
        }
    }
}

/// Appends the block of one member.
pub fn push_member_block(out: &mut Vec<u8>, iv: &[u8; 16], sock_addr: &[u8])
    requires
        sock_addr@.len() <= 255,
    ensures
        final(out)@ == old(out)@ + (MemberView { iv: iv@, sock_addr: sock_addr@ }).block(),
{
    let ghost before = out@;
    out.push(sock_addr.len() as u8);
    out.extend_from_slice(iv.as_slice());
    out.extend_from_slice(sock_addr);
    assert(out@ =~= before + (MemberView { iv: iv@, sock_addr: sock_addr@ }).block());
}

/// Writes the head of a GET response: what stands before the members.
pub fn get_response_head(encrypted: bool, count: u8, salt: &[u8; 16]) -> (out: Vec<u8>)
    ensures
        out@ == seq![ServerMethods::GET.spec_code(), flag_byte(encrypted), count] + salt@,
{
    let mut out: Vec<u8> = Vec::new();
    out.push(ServerMethods::GET.code());
    out.push(if encrypted { 1u8 } else { 0u8 });
    out.push(count);
    out.extend_from_slice(salt.as_slice());
    assert(out@ =~= seq![ServerMethods::GET.spec_code(), flag_byte(encrypted), count] + salt@);
    out
}

impl GetResponse {
    /// Writes the response; `None` where a count or a length does not fit its
    /// byte.
    pub fn encode(&self) -> (out: Option<Vec<u8>>)
        ensures
            out is Some <==> self@.encodable(),
            out matches Some(bytes) ==> bytes@ == self@.bytes(),
    {
        if self.members.len() > 255 {
            return None;
        }
        let mut out = get_response_head(self.encrypted, self.members.len() as u8, &self.salt);
        let ghost head = out@;
        let ghost all = members_view(self.members@);
        let mut i: usize = 0;
        while i < self.members.len()
            invariant
                i <= self.members@.len(),
                all == members_view(self.members@),
                out@ == head + spec_member_blocks(all.take(i as int)),
                forall|j: int| 0 <= j < i ==> (#[trigger] all[j]).encodable(),
            decreases self.members@.len() - i,
        {
            let member = &self.members[i];
            if member.sock_addr.len() > 255 {
                assert(!all[i as int].encodable());
                return None;
            }
            proof {
                assert(all.take(i + 1).drop_last() =~= all.take(i as int));
                assert(all.take(i + 1).last() == all[i as int]);
                lemma_concat_associative(
                    head,
                    spec_member_blocks(all.take(i as int)),
                    all[i as int].block(),
                );
            }
            push_member_block(&mut out, &member.iv, member.sock_addr.as_slice());
            i += 1;
        }
        assert(all.take(all.len() as int) =~= all);
        Some(out)
    }

    /// Reads a response from the bytes received.
    pub fn decode(datagram: &[u8]) -> (r: Result<GetResponse, MalformedMessage>)
        ensures
            r is Ok <==> GetResponseView::parse(datagram@) is Some,
            r matches Ok(response) ==> GetResponseView::parse(datagram@) == Some(response@),
    {
        let clients = GetResponseDataPositions::CLIENTS.offset();
        if datagram.len() < clients {
            return Err(MalformedMessage);
        }
        let count = datagram[GetResponseDataPositions::NUM_OF_CLIENTS.offset()] as usize;
        let mut members: Vec<Member> = Vec::new();
        let mut at: usize = clients;
        let mut i: usize = 0;
        while i < count
            invariant
                i <= count <= 255,
                count == datagram@[2],
                19 <= at <= datagram@.len(),
                spec_parse_members(datagram@, 19, count as nat) == (match spec_parse_members(
                    datagram@,
                    at as int,
                    (count - i) as nat,
                ) {
                    Some(rest) => Some(members_view(members@) + rest),
                    None => None,
                }),
            decreases count - i,
        {
            if datagram.len() - at < 17 {
                return Err(MalformedMessage);
            }
            let n = datagram[at] as usize;
            if datagram.len() - at - 17 < n {
                return Err(MalformedMessage);
            }
            let member = Member {
                iv: copy_block(datagram, at + 1),
                sock_addr: copy_range(datagram, at + 17, at + 17 + n),
            };
            proof {
                let rest = spec_parse_members(datagram@, at + 17 + n, (count - i - 1) as nat);
                if rest is Some {
                    assert(members_view(members@.push(member)) + rest.unwrap() =~= members_view(
                        members@,
                    ) + (seq![member@] + rest.unwrap()));
                }
            }
            members.push(member);
            at = at + 17 + n;
            i += 1;
        }
        assert(members_view(members@) + Seq::<MemberView>::empty() =~= members_view(members@));
        Ok(
            GetResponse {
                encrypted: datagram[GetResponseDataPositions::ENCRYPTED.offset()] != 0,
                salt: copy_block(datagram, GetResponseDataPositions::SALT.offset()),
                members,
            },
        )
    }
}

/// The blocks of the first `k` members are no longer than those of all.
pub proof fn lemma_blocks_grow(members: Seq<MemberView>, k: int)
    requires
        0 <= k <= members.len(),
    ensures
        spec_member_blocks(members.take(k)).len() <= spec_member_blocks(members).len(),
    decreases members.len() - k,
{
    if k < members.len() {
        lemma_blocks_grow(members, k + 1);
        assert(members.take(k + 1).drop_last() =~= members.take(k));
    } else {
        assert(members.take(k) =~= members);
    }
}

/// The blocks of members start with the block of the first.
proof fn lemma_blocks_front(members: Seq<MemberView>)
    requires
        members.len() > 0,
    ensures
        spec_member_blocks(members) == members[0].block() + spec_member_blocks(members.skip(1)),
    decreases members.len(),
{
    if members.len() == 1 {
        reveal_with_fuel(spec_member_blocks, 2);
        assert(members.drop_last() =~= Seq::<MemberView>::empty());
        assert(members.skip(1) =~= Seq::<MemberView>::empty());
        assert(spec_member_blocks(members) =~= members[0].block());
        assert(members[0].block() + Seq::<u8>::empty() =~= members[0].block());
    } else {
        let shorter = members.drop_last();
        lemma_blocks_front(shorter);
        assert(members.skip(1).drop_last() =~= shorter.skip(1));
        assert(members.skip(1).last() == members.last());
        lemma_concat_associative(
            members[0].block(),
            spec_member_blocks(shorter.skip(1)),
            members.last().block(),
        );
    }
}

/// Blocks that were written after `prefix` are read back as the members
/// they were written from.
proof fn lemma_parse_blocks(prefix: Seq<u8>, members: Seq<MemberView>, tail: Seq<u8>)
    requires
        forall|i: int| 0 <= i < members.len() ==> (#[trigger] members[i]).encodable(),
    ensures
        spec_parse_members(
            prefix + spec_member_blocks(members) + tail,
            prefix.len() as int,
            members.len(),
        ) == Some(members),
    decreases members.len(),
{
    let datagram = prefix + spec_member_blocks(members) + tail;
    let at = prefix.len() as int;
    if members.len() == 0 {
        assert(members =~= Seq::<MemberView>::empty());
    } else {
        let first = members[0];
        let rest = members.skip(1);
        let n = first.sock_addr.len() as int;
        assert(first.encodable());
        lemma_blocks_front(members);
        lemma_concat_associative(prefix, first.block(), spec_member_blocks(rest));
        assert(datagram == (prefix + first.block()) + spec_member_blocks(rest) + tail);
        assert forall|i: int| 0 <= i < rest.len() implies (#[trigger] rest[i]).encodable() by {
            assert(rest[i] == members[i + 1]);
        }
        lemma_parse_blocks(prefix + first.block(), rest, tail);
        assert(first.block().len() == 17 + n);
        assert(datagram[at] == first.block()[0]);
        assert(datagram.subrange(at + 1, at + 17) =~= first.iv);
        assert(datagram.subrange(at + 17, at + 17 + n) =~= first.sock_addr);
        assert(seq![first] + rest =~= members);
    }
}

/// A GET response that was written is read back as it was.
pub proof fn get_response_round_trip(response: GetResponseView)
    requires
        response.encodable(),
    ensures
        response.bytes()[0] == ServerMethods::GET.spec_code(),
        GetResponseView::parse(response.bytes()) == Some(response),
{
    let head = seq![
        ServerMethods::GET.spec_code(),
        flag_byte(response.encrypted),
        response.members.len() as u8,
    ] + response.salt;
    let datagram = response.bytes();
    lemma_parse_blocks(head, response.members, Seq::<u8>::empty());
    assert(head + spec_member_blocks(response.members) + Seq::<u8>::empty() =~= datagram);
    assert(datagram.subrange(3, 19) =~= response.salt);
}

} // verus!

//! Client and registrar understand each other: what the one writes, the
//! other reads as it was meant.

use vstd::prelude::*;
use vstd::utf8::encode_utf8;

use crate::client::net::{
    spec_get_response, spec_heartbeat_request, spec_member_peer, spec_network_key,
    spec_query_response, spec_register_request,
};
use crate::client::types::NetworkView;
use crate::server::net::{
    spec_acknowledge, spec_get_answer, spec_registry_after, spec_requested_registration,
    spec_response, spec_stored_block,
};
use crate::server::registry::{
    spec_get, spec_heartbeat, spec_heartbeat_result, spec_listing, spec_members, spec_register,
    spec_register_result,
};
use crate::server::types::{spec_new_registration, RegistrationView};
use crate::server::utils::spec_error_response;
use crate::shared::addr::{sock_addr_text_is_ascii, Ipv4, SockAddr};
use crate::shared::text::{ascii_is_text, spec_ascii_text, text_round_trip};
use crate::shared::wire::{
    get_response_round_trip, heartbeat_request_round_trip, register_request_round_trip,
    spec_tagged, tagged_round_trip,
};
use crate::{ServerErrorView, ServerMethods};

verus! {

/// The registrar takes the REGISTER request of a client for what it is: it
/// tries to register the client's network with the client as its first
/// member, and answers with the result.
pub proof fn register_request_is_understood(
    network: NetworkView,
    public_sock_addr: Seq<u8>,
    iv: Seq<u8>,
    registry: Seq<RegistrationView>,
    limit: nat,
    src: SockAddr,
    now: i64,
)
    requires
        spec_register_request(network, public_sock_addr, iv).encodable(),
        network.net_id.len() > 0,
        public_sock_addr.len() > 0,
    ensures
        ({
            let request = spec_register_request(network, public_sock_addr, iv).bytes();
            let founded = spec_new_registration(
                network.net_id,
                public_sock_addr,
                network.encrypted,
                now,
                spec_stored_block(network.encrypted, network.salt),
                spec_stored_block(network.encrypted, iv),
                src,
            );
            &&& spec_response(registry, limit, request, src, now) == Some(
                spec_acknowledge(
                    ServerMethods::REGISTER.spec_code(),
                    spec_register_result(registry, limit, founded),
                ),
            )
            &&& spec_registry_after(registry, limit, request, src, now) == spec_register(
                registry,
                limit,
                founded,
            )
        }),
{
    let fields = spec_register_request(network, public_sock_addr, iv);
    register_request_round_trip(fields);
    text_round_trip(network.net_id);
    lemma_text_is_not_empty(network.net_id);
    assert(spec_requested_registration(fields, network.net_id, src, now) == spec_new_registration(
        network.net_id,
        public_sock_addr,
        network.encrypted,
        now,
        spec_stored_block(network.encrypted, network.salt),
        spec_stored_block(network.encrypted, iv),
        src,
    ));
}

/// The registrar takes the HEARTBEAT request of a client for what it is: it
/// refreshes or adds the client in the client's network, and answers with the
/// result.
pub proof fn heartbeat_request_is_understood(
    network: NetworkView,
    public_sock_addr: Seq<u8>,
    iv: Seq<u8>,
    registry: Seq<RegistrationView>,
    limit: nat,
    src: SockAddr,
    now: i64,
)
    requires
        spec_heartbeat_request(network, public_sock_addr, iv).encodable(),
        network.net_id.len() > 0,
        public_sock_addr.len() > 0,
    ensures
        ({
            let request = spec_heartbeat_request(network, public_sock_addr, iv).bytes();
            &&& spec_response(registry, limit, request, src, now) == Some(
                spec_acknowledge(
                    ServerMethods::HEARTBEAT.spec_code(),
                    spec_heartbeat_result(registry, network.net_id),
                ),
            )
            &&& spec_registry_after(registry, limit, request, src, now) == spec_heartbeat(
                registry,
                network.net_id,
                src,
                public_sock_addr,
                iv,
                now,
            )
        }),
{
    let fields = spec_heartbeat_request(network, public_sock_addr, iv);
    heartbeat_request_round_trip(fields);
    text_round_trip(network.net_id);
    lemma_text_is_not_empty(network.net_id);
}

/// The registrar takes the GET request of a client for what it is: it answers
/// with the members of the network that the client named, or with the reason
/// why it cannot, and leaves the registry as it is.
pub proof fn get_request_is_understood(
    network_id: Seq<char>,
    registry: Seq<RegistrationView>,
    limit: nat,
    src: SockAddr,
    now: i64,
)
    requires
        encode_utf8(network_id).len() <= 255,
    ensures
        ({
            let request = spec_tagged(ServerMethods::GET.spec_code(), encode_utf8(network_id));
            &&& spec_response(registry, limit, request, src, now) == Some(
                match spec_get(registry, network_id) {
                    Ok(listing) => listing,
                    Err(e) => spec_error_response(e),
                },
            )
            &&& spec_registry_after(registry, limit, request, src, now) == registry
        }),
{
    let request = spec_tagged(ServerMethods::GET.spec_code(), encode_utf8(network_id));
    tagged_round_trip(ServerMethods::GET.spec_code(), encode_utf8(network_id));
    text_round_trip(network_id);
    assert(spec_get_answer(registry, request) == (match spec_get(registry, network_id) {
        Ok(listing) => listing,
        Err(e) => spec_error_response(e),
    }));
}

/// The client reads from the answer to its QUERY request the text of the
/// address that the registrar saw the request come from.
pub proof fn query_is_understood(
    registry: Seq<RegistrationView>,
    limit: nat,
    src: SockAddr,
    now: i64,
)
    ensures
        ({
            let request = seq![ServerMethods::QUERY.spec_code()];
            let answer = spec_response(registry, limit, request, src, now);
            &&& answer is Some
            &&& spec_query_response(answer.unwrap()) == Ok::<Seq<char>, ServerErrorView>(
                spec_ascii_text(src.spec_text()),
            )
            &&& encode_utf8(spec_ascii_text(src.spec_text())) == src.spec_text()
            &&& spec_registry_after(registry, limit, request, src, now) == registry
        }),
{
    sock_addr_text_is_ascii(src);
    ascii_is_text(src.spec_text());
    tagged_round_trip(ServerMethods::QUERY.spec_code(), src.spec_text());
}

/// The client reads from the answer to its GET request the network as the
/// registrar knows it: its salt, whether it is encrypted, and as peers the
/// members whose addresses it can read, in the registrar's order.
pub proof fn listing_is_understood(
    registration: RegistrationView,
    network_id: Seq<char>,
    password: Option<Seq<u8>>,
)
    requires
        spec_listing(registration).encodable(),
        !(registration.encrypted && password is None),
    ensures
        ({
            let key = spec_network_key(registration.encrypted, password, registration.salt);
            spec_get_response(spec_listing(registration).bytes(), network_id, password) == Ok::<
                NetworkView,
                ServerErrorView,
            >(
                NetworkView {
                    encrypted: registration.encrypted,
                    key,
                    net_id: network_id,
                    salt: registration.salt,
                    peers: spec_members(registration.clients).filter_map(
                        spec_member_peer(registration.encrypted, key),
                    ),
                    private_ip: Ipv4::spec_unspecified(),
                },
            )
        }),
{
    get_response_round_trip(spec_listing(registration));
}

/// A text that is not empty has bytes.
proof fn lemma_text_is_not_empty(text: Seq<char>)
    requires
        text.len() > 0,
    ensures
        encode_utf8(text).len() > 0,
{
    text_round_trip(text);
    if encode_utf8(text).len() == 0 {
        assert(encode_utf8(text) =~= Seq::<u8>::empty());
        assert(vstd::utf8::decode_utf8(Seq::<u8>::empty()).len() == 0);
    }
}

} // verus!

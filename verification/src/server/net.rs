//! The registrar's requests: what each does to the registry and what is
//! answered.

use vstd::prelude::*;

use crate::server::registry::{
    registry_limit, spec_get, spec_heartbeat, spec_heartbeat_result, spec_register,
    spec_register_result, spec_unique_ids, unit_result_view, Registry,
};
use crate::server::types::{spec_new_registration, Registration, RegistrationView};
use crate::server::utils::{
    error_response, send_general_error_to_client, spec_error_response, spec_general_error,
    unix_now,
};
use crate::shared::addr::SockAddr;
use crate::shared::text::{decode_text, spec_decode_text};
use crate::shared::wire::{
    bare, body, spec_body, spec_tagged, tagged, HeartbeatRequest, HeartbeatRequestView,
    RegisterRequest, RegisterRequestView,
};
use crate::{ServerErrorResponses, ServerErrorView, ServerMethods};

verus! {

/// The text with which an id that is too long is refused.
pub open spec fn spec_id_too_long_text() -> Seq<char> {
    "Network ID is too long"@
}

/// The text with which an id is refused that is not UTF-8.
pub open spec fn spec_id_not_text() -> Seq<char> {
    "Network ID is not valid UTF-8"@
}

/// The text with which a heartbeat without an id is refused.
pub open spec fn spec_id_too_short_text() -> Seq<char> {
    "ID too short!"@
}

/// The text with which a heartbeat without an address is refused.
pub open spec fn spec_addr_too_short_text() -> Seq<char> {
    "SockAddr too short!"@
}

/// A block as it is stored: as received where the network is encrypted, zero
/// where it is not.
pub open spec fn spec_stored_block(encrypted: bool, block: Seq<u8>) -> Seq<u8> {
    if encrypted {
        block
    } else {
        Seq::new(16, |i: int| 0u8)
    }
}

/// The network that a REGISTER request founds.
pub open spec fn spec_requested_registration(
    request: RegisterRequestView,
    id: Seq<char>,
    src: SockAddr,
    now: i64,
) -> RegistrationView {
    spec_new_registration(
        id,
        request.sock_addr,
        request.encrypted,
        now,
        spec_stored_block(request.encrypted, request.salt),
        spec_stored_block(request.encrypted, request.iv),
        src,
    )
}

/// The answer to the result of a change: the method byte on success, the
/// failure response otherwise.
pub open spec fn spec_acknowledge(method: u8, result: Result<(), ServerErrorView>) -> Seq<u8> {
    match result {
        Ok(_) => seq![method],
        Err(e) => spec_error_response(e),
    }
}

/// The method of a request, where it has one.
pub open spec fn spec_request_method(datagram: Seq<u8>) -> Option<ServerMethods> {
    if datagram.len() == 0 {
        None
    } else {
        ServerMethods::spec_from_code(datagram[0])
    }
}

/// The id that a REGISTER request names and the network it founds; `None`
/// where the request is dropped without an answer, an error where the id is
/// not text.
pub open spec fn spec_register_request(datagram: Seq<u8>, src: SockAddr, now: i64) -> Option<
    Result<RegistrationView, Seq<u8>>,
> {
    match RegisterRequestView::parse(datagram) {
        None => None,
        Some(request) => if request.net_id.len() == 0 || request.sock_addr.len() == 0 {
            None
        } else {
            match spec_decode_text(request.net_id) {
                None => Some(Err(spec_general_error(spec_id_not_text()))),
                Some(id) => Some(Ok(spec_requested_registration(request, id, src, now))),
            }
        },
    }
}

/// The id and the rest of a HEARTBEAT request; `None` where the request is
/// dropped without an answer, an error where it is refused.
pub open spec fn spec_heartbeat_request(datagram: Seq<u8>) -> Option<
    Result<(Seq<char>, HeartbeatRequestView), Seq<u8>>,
> {
    match HeartbeatRequestView::parse(datagram) {
        None => None,
        Some(request) => if request.net_id.len() == 0 {
            Some(Err(spec_general_error(spec_id_too_short_text())))
        } else if request.sock_addr.len() == 0 {
            Some(Err(spec_general_error(spec_addr_too_short_text())))
        } else {
            match spec_decode_text(request.net_id) {
                None => Some(Err(spec_general_error(spec_id_not_text()))),
                Some(id) => Some(Ok((id, request))),
            }
        },
    }
}

/// The answer to a GET request.
pub open spec fn spec_get_answer(registry: Seq<RegistrationView>, datagram: Seq<u8>) -> Seq<u8> {
    if datagram.len() > 256 {
        spec_general_error(spec_id_too_long_text())
    } else {
        match spec_decode_text(spec_body(datagram)) {
            None => spec_general_error(spec_id_not_text()),
            Some(id) => match spec_get(registry, id) {
                Ok(listing) => listing,
                Err(e) => spec_error_response(e),
            },
        }
    }
}

/// The answer to a request, `None` where the request is dropped without one.
pub open spec fn spec_response(
    registry: Seq<RegistrationView>,
    limit: nat,
    datagram: Seq<u8>,
    src: SockAddr,
    now: i64,
) -> Option<Seq<u8>> {
    match spec_request_method(datagram) {
        None => None,
        Some(ServerMethods::QUERY) => Some(
            spec_tagged(ServerMethods::QUERY.spec_code(), src.spec_text()),
        ),
        Some(ServerMethods::GET) => Some(spec_get_answer(registry, datagram)),
        Some(ServerMethods::REGISTER) => match spec_register_request(datagram, src, now) {
            None => None,
            Some(Err(refusal)) => Some(refusal),
            Some(Ok(registration)) => Some(
                spec_acknowledge(
                    ServerMethods::REGISTER.spec_code(),
                    spec_register_result(registry, limit, registration),
                ),
            ),
        },
        Some(ServerMethods::HEARTBEAT) => match spec_heartbeat_request(datagram) {
            None => None,
            Some(Err(refusal)) => Some(refusal),
            Some(Ok((id, _))) => Some(
                spec_acknowledge(
                    ServerMethods::HEARTBEAT.spec_code(),
                    spec_heartbeat_result(registry, id),
                ),
            ),
        },
    }
}

/// The registry after a request: a REGISTER request that is accepted adds
/// its network, a HEARTBEAT request that is accepted refreshes or adds its
/// member, nothing else changes the registry.
pub open spec fn spec_registry_after(
    registry: Seq<RegistrationView>,
    limit: nat,
    datagram: Seq<u8>,
    src: SockAddr,
    now: i64,
) -> Seq<RegistrationView> {
    match spec_request_method(datagram) {
        Some(ServerMethods::REGISTER) => match spec_register_request(datagram, src, now) {
            Some(Ok(registration)) => spec_register(registry, limit, registration),
            _ => registry,
        },
        Some(ServerMethods::HEARTBEAT) => match spec_heartbeat_request(datagram) {
            Some(Ok((id, request))) => spec_heartbeat(
                registry,
                id,
                src,
                request.sock_addr,
                request.iv,
                now,
            ),
            _ => registry,
        },
        _ => registry,
    }
}

/// The bytes of a response, where there is one.
pub open spec fn response_view(r: Option<Vec<u8>>) -> Option<Seq<u8>> {
    match r {
        Some(bytes) => Some(bytes@),
        None => None,
    }
}

/// Builds the answer to the result of a change.
pub fn acknowledge(method: ServerMethods, result: &Result<(), ServerErrorResponses>) -> (out:
    Vec<u8>)
    ensures
        out@ == spec_acknowledge(method.spec_code(), unit_result_view(*result)),
{
    match result {
        Ok(_) => bare(method.code()),
        Err(e) => error_response(e),
    }
}

/// Handles a request that arrived from `src` at the time `now`: changes the
/// registry as the request asks and returns the datagram to answer with.
/// A request that is malformed is dropped without an answer.
pub fn handle_request_at(
    datagram: &[u8],
    src: SockAddr,
    registry: &mut Registry,
    now: i64,
) -> (response: Option<Vec<u8>>)
    ensures
        response_view(response) == spec_response(
            old(registry)@,
            registry_limit(*old(registry)),
            datagram@,
            src,
            now,
        ),
        final(registry)@ == spec_registry_after(
            old(registry)@,
            registry_limit(*old(registry)),
            datagram@,
            src,
            now,
        ),
        spec_unique_ids(old(registry)@) ==> spec_unique_ids(final(registry)@),
{
    if datagram.len() == 0 {
        return None;
    }
    match ServerMethods::from_code(datagram[0]) {
        None => None,
        Some(ServerMethods::QUERY) => {
            let text = src.to_text();
            Some(tagged(ServerMethods::QUERY.code(), text.as_slice()))
        },
        Some(ServerMethods::GET) => {
            if datagram.len() > 256 {
                return Some(send_general_error_to_client("Network ID is too long"));
            }
            let id_bytes = body(datagram);
            match decode_text(id_bytes.as_slice()) {
                None => Some(send_general_error_to_client("Network ID is not valid UTF-8")),
                Some(id) => match registry.get(&id) {
                    Ok(listing) => Some(listing),
                    Err(e) => Some(error_response(&e)),
                },
            }
        },
        Some(ServerMethods::REGISTER) => match RegisterRequest::decode(datagram) {
            Err(_) => None,
            Ok(request) => {
                if request.net_id.len() == 0 || request.sock_addr.len() == 0 {
                    return None;
                }
                match decode_text(request.net_id.as_slice()) {
                    None => Some(send_general_error_to_client("Network ID is not valid UTF-8")),
                    Some(id) => {
                        let (salt, iv) = if request.encrypted {
                            (Some(request.salt), Some(request.iv))
                        } else {
                            (None, None)
                        };
                        let registration = Registration::new(
                            id,
                            request.sock_addr,
                            request.encrypted,
                            now,
                            salt,
                            iv,
                            src,
                        );
                        let result = registry.register(registration);
                        Some(acknowledge(ServerMethods::REGISTER, &result))
                    },
                }
            },
        },
        Some(ServerMethods::HEARTBEAT) => match HeartbeatRequest::decode(datagram) {
            Err(_) => None,
            Ok(request) => {
                if request.net_id.len() == 0 {
                    return Some(send_general_error_to_client("ID too short!"));
                }
                if request.sock_addr.len() == 0 {
                    return Some(send_general_error_to_client("SockAddr too short!"));
                }
                match decode_text(request.net_id.as_slice()) {
                    None => Some(send_general_error_to_client("Network ID is not valid UTF-8")),
                    Some(id) => {
                        let result = registry.heartbeat(
                            &id,
                            src,
                            request.sock_addr,
                            request.iv,
                            now,
                        );
                        Some(acknowledge(ServerMethods::HEARTBEAT, &result))
                    },
                }
            },
        },
    }
}

/// Handles a request that arrived from `src`, at the time the system clock
/// shows.
pub fn handle_request(
    datagram: &[u8],
    src: SockAddr,
    registry: &mut Registry,
) -> (response: Option<Vec<u8>>)
    ensures
        exists|now: i64|
            {
                &&& response_view(response) == #[trigger] spec_response(
                    old(registry)@,
                    registry_limit(*old(registry)),
                    datagram@,
                    src,
                    now,
                )
                &&& final(registry)@ == spec_registry_after(
                    old(registry)@,
                    registry_limit(*old(registry)),
                    datagram@,
                    src,
                    now,
                )
            },
        spec_unique_ids(old(registry)@) ==> spec_unique_ids(final(registry)@),
{
    let now = unix_now();
    handle_request_at(datagram, src, registry, now)
}

} // verus!

//! The clock, the failure response and the periodic sweep.

use vstd::prelude::*;
use vstd::utf8::encode_utf8;

use crate::server::registry::{spec_sweep, spec_unique_ids, Registry};
use crate::shared::text::encode_text;
use crate::shared::wire::{bare, spec_tagged, tagged};
use crate::{ServerErrorResponses, ServerErrorView, ServerResponse};

verus! {

/// Calls `chrono::Utc::now` and `DateTime::timestamp`: the seconds since the
/// Unix epoch by the system clock. Nothing is known of the value. The first
/// call panics where the system clock stands before the epoch.
#[verifier::external_body]
pub(crate) fn unix_now_call() -> (now: i64) {
    chrono::Utc::now().timestamp()
}

/// The time by the system clock, in seconds since the Unix epoch.
pub fn unix_now() -> (now: i64) {
    unix_now_call()
}

/// The datagram that reports a general error with its text.
pub open spec fn spec_general_error(text: Seq<char>) -> Seq<u8> {
    spec_tagged(ServerResponse::GENERAL_ERROR.spec_code(), encode_utf8(text))
}

/// The datagram that reports a failure to a client.
pub open spec fn spec_error_response(e: ServerErrorView) -> Seq<u8> {
    match e {
        ServerErrorView::GENERAL_ERROR(text) => spec_general_error(text),
        ServerErrorView::ID_EXISTS => seq![ServerResponse::ID_EXISTS.spec_code()],
        ServerErrorView::ID_DOESNT_EXIST => seq![ServerResponse::ID_DOESNT_EXIST.spec_code()],
        ServerErrorView::IO(_, text) => spec_general_error(text),
    }
}

/// Builds the datagram that reports a general error to a client: the error
/// byte, then the text.
pub fn send_general_error_to_client(text: &str) -> (datagram: Vec<u8>)
    ensures
        datagram@ == spec_general_error(text@),
{
    let bytes = encode_text(text);
    tagged(ServerResponse::GENERAL_ERROR.code(), bytes.as_slice())
}

/// Builds the datagram that reports a failure to a client.
pub fn error_response(e: &ServerErrorResponses) -> (datagram: Vec<u8>)
    ensures
        datagram@ == spec_error_response(e@),
{
    match e {
        ServerErrorResponses::GENERAL_ERROR(text) => send_general_error_to_client(text.as_str()),
        ServerErrorResponses::ID_EXISTS => bare(ServerResponse::ID_EXISTS.code()),
        ServerErrorResponses::ID_DOESNT_EXIST => bare(ServerResponse::ID_DOESNT_EXIST.code()),
        ServerErrorResponses::IO(err) => send_general_error_to_client(err.message.as_str()),
    }
}

/// One pass of the cleaner: sweeps the registry by the system clock. The
/// program calls this every `HEARTBEAT_EXPIRY` seconds.
pub fn disconnected_cleaner(registry: &mut Registry)
    ensures
        exists|now: i64| final(registry)@ == #[trigger] spec_sweep(old(registry)@, now),
        spec_unique_ids(old(registry)@) ==> spec_unique_ids(final(registry)@),
{
    let now = unix_now();
    registry.sweep(now);
}

} // verus!

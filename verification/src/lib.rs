pub mod cli;
pub mod command;
pub mod config;
pub mod events;
pub mod fsops;
pub mod jsonval;
pub mod numfmt;
pub mod pending;
pub mod permission;
pub mod protocol;
pub mod registry;
mod strutil;
pub mod terminal;

use vstd::prelude::*;

verus! {

/// The protocol version this client advertises and accepts.
pub const PROTOCOL_VERSION: u64 = 1;

/// Checks the `protocolVersion` field of an `initialize` response.
/// Succeeds exactly when the peer reported the supported version.
pub fn protocol_version_ok(reported: u64) -> (r: bool)
    ensures
        r == (reported == PROTOCOL_VERSION),
{
    reported == PROTOCOL_VERSION
}

} // verus!

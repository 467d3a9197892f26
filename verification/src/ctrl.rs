//! What the two ends of the control stream agree on.
use vstd::prelude::*;

use crate::auth::AuthError;
use crate::time;
use crate::time::Duration;
use crate::vpn::DenyReason;

verus! {

pub const HEARTBEAT_INTERVAL_SECS: u64 = 10;

pub const HEARTBEAT_TIMEOUT_SECS: u64 = 30;

pub const MAX_FRAME_LENGTH: usize = 65_536;

/// The version of the protocol that this side speaks.
pub const PROTOCOL_VERSION: u32 = 1;

/// How often a heartbeat is sent.
pub fn heartbeat_interval() -> (d: Duration)
    ensures
        d.nanos == HEARTBEAT_INTERVAL_SECS * time::NANOS_PER_SEC,
{
    Duration::from_secs(HEARTBEAT_INTERVAL_SECS)
}

/// How long the other side may be silent.
pub fn heartbeat_timeout() -> (d: Duration)
    ensures
        d.nanos == HEARTBEAT_TIMEOUT_SECS * time::NANOS_PER_SEC,
{
    Duration::from_secs(HEARTBEAT_TIMEOUT_SECS)
}

/// What kept the server from letting a client in.
#[derive(Debug, Clone, PartialEq, Eq)]
pub enum ServerSideError {
    Auth(AuthError),
    PoolExhausted,
}

/// What the client is told.
pub fn deny_reason_from(e: &ServerSideError) -> (r: DenyReason)
    ensures
        r == match e {
            ServerSideError::Auth(_) => DenyReason::AuthFailed,
            ServerSideError::PoolExhausted => DenyReason::ServerBusy,
        },
{
    match e {
        ServerSideError::Auth(_) => DenyReason::AuthFailed,
        ServerSideError::PoolExhausted => DenyReason::ServerBusy,
    }
}

/// The control stream agrees with the streams below it: how often a sign of life is sent, how
/// long the other side may be silent, and how long a message may be.
pub proof fn law_limits_agree()
    ensures
        HEARTBEAT_INTERVAL_SECS == crate::msgx::keepalive::KEEPALIVE_INTERVAL_SECS,
        HEARTBEAT_TIMEOUT_SECS == crate::msgx::keepalive::KEEPALIVE_TIMEOUT_SECS,
        MAX_FRAME_LENGTH == crate::msgx::codec::MAX_FRAME_LENGTH,
        3 * HEARTBEAT_INTERVAL_SECS == HEARTBEAT_TIMEOUT_SECS,
        HEARTBEAT_INTERVAL_SECS == 10,
        MAX_FRAME_LENGTH == 65536,
        PROTOCOL_VERSION == 1,
        time::NANOS_PER_SEC == 1_000_000_000,
        time::NANOS_PER_MILLI * 1000 == time::NANOS_PER_SEC,
{
}

/// A client is told that the server is busy if and only if there was no address left for it;
/// whatever is wrong with its credentials, it is told no more than that they are.
pub proof fn law_client_is_told_little(e: AuthError, a: DenyReason, b: DenyReason)
    requires
        call_ensures(deny_reason_from, (&ServerSideError::Auth(e),), a),
        call_ensures(deny_reason_from, (&ServerSideError::PoolExhausted,), b),
    ensures
        a == DenyReason::AuthFailed,
        b == DenyReason::ServerBusy,
{
}

} // verus!

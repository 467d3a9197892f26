use vpn::auth::AuthError;
use vpn::ctrl::{
    deny_reason_from, heartbeat_interval, heartbeat_timeout, ServerSideError, MAX_FRAME_LENGTH,
};
use vpn::time::{Duration, Instant};
use vpn::vpn::DenyReason;

#[test]
fn test_deny_reason_from_auth_error_returns_auth_failed() {
    let e = ServerSideError::Auth(AuthError::InvalidCredentials);
    assert_eq!(deny_reason_from(&e), DenyReason::AuthFailed);
}

#[test]
fn test_deny_reason_from_pool_exhausted_returns_server_busy() {
    let e = ServerSideError::PoolExhausted;
    assert_eq!(deny_reason_from(&e), DenyReason::ServerBusy);
}

#[test]
fn test_heartbeat_interval_equals_10_seconds() {
    assert_eq!(heartbeat_interval(), Duration::from_secs(10));
}

#[test]
fn test_heartbeat_timeout_equals_30_seconds() {
    assert_eq!(heartbeat_timeout(), Duration::from_secs(30));
}

#[test]
fn test_max_frame_length_equals_64kib() {
    assert_eq!(MAX_FRAME_LENGTH, 65_536);
}

#[test]
fn spans_and_points_in_time() {
    assert_eq!(Duration::from_secs(2).nanos, 2_000_000_000);
    assert_eq!(Duration::from_millis(3).nanos, 3_000_000);
    assert_eq!(Duration::from_nanos(5).nanos, 5);
    let a = Instant::from_nanos(10);
    let b = a.checked_add(Duration::from_nanos(5)).unwrap();
    assert_eq!(b.duration_since(a), Duration::from_nanos(5));
    assert_eq!(a.duration_since(b), Duration::from_nanos(0));
    assert_eq!(Instant::from_nanos(u128::MAX).checked_add(Duration::from_nanos(1)), None);
}

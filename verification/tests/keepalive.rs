use vpn::io_error::{IoError, IoErrorKind};
use vpn::msgx::codec::FrameError;
use vpn::msgx::keepalive::{keepalive_interval, keepalive_timeout, KeepaliveTracker};
use vpn::quic_link::keepalive::{
    check_timeout, first_of, handle_recv, timeout_tick, KeepaliveAction, KeepaliveConfig,
    KeepaliveEvent, KeepaliveLook, KeepaliveLoop, LoopControl,
};
use vpn::quic_link::session::{server_close, wire_code};
use vpn::time::{Duration, Instant};

fn t0() -> Instant {
    Instant::from_nanos(7_000_000_000_000)
}

fn later(t: Instant, d: Duration) -> Instant {
    t.checked_add(d).unwrap()
}

#[test]
fn test_keepalive_interval_equals_10_seconds() {
    assert_eq!(keepalive_interval(), Duration::from_secs(10));
}

#[test]
fn test_keepalive_timeout_equals_30_seconds() {
    assert_eq!(keepalive_timeout(), Duration::from_secs(30));
}

#[test]
fn test_is_dead_at_construction_returns_false() {
    let tracker = KeepaliveTracker::new(t0());
    assert!(!tracker.is_dead(t0()));
}

#[test]
fn test_is_dead_just_below_timeout_returns_false() {
    let tracker = KeepaliveTracker::new(t0());
    let at = later(t0(), keepalive_timeout());
    let just_below = Instant::from_nanos(at.nanos - 1);
    assert!(!tracker.is_dead(just_below));
}

#[test]
fn test_is_dead_at_exact_timeout_returns_true() {
    let tracker = KeepaliveTracker::new(t0());
    assert!(tracker.is_dead(later(t0(), keepalive_timeout())));
}

#[test]
fn test_is_dead_beyond_timeout_returns_true() {
    let tracker = KeepaliveTracker::new(t0());
    let at = later(t0(), keepalive_timeout());
    assert!(tracker.is_dead(later(at, Duration::from_secs(5))));
}

#[test]
fn test_observe_revives_after_death() {
    let mut tracker = KeepaliveTracker::new(t0());
    let deadline = later(t0(), keepalive_timeout());
    assert!(tracker.is_dead(deadline));
    tracker.observe(deadline);
    assert!(!tracker.is_dead(later(deadline, Duration::from_secs(1))));
}

#[test]
fn test_next_deadline_equals_last_seen_plus_timeout() {
    let tracker = KeepaliveTracker::new(t0());
    assert_eq!(tracker.next_deadline(), later(t0(), keepalive_timeout()));
}

#[test]
fn test_next_deadline_updates_after_observe() {
    let t1 = later(t0(), Duration::from_secs(100));
    let mut tracker = KeepaliveTracker::new(t0());
    tracker.observe(t1);
    assert_eq!(tracker.next_deadline(), later(t1, keepalive_timeout()));
}

#[test]
fn test_keepalive_config_default_equals_msgx_constants() {
    let cfg = KeepaliveConfig::default();
    assert_eq!(cfg.interval, Duration::from_secs(10));
    assert_eq!(cfg.timeout, Duration::from_secs(30));
    assert_eq!(cfg.interval, keepalive_interval());
    assert_eq!(cfg.timeout, keepalive_timeout());
}

#[test]
fn test_loop_control_variants_exist() {
    assert_ne!(LoopControl::Continue, LoopControl::Break);
}

fn fast_cfg() -> KeepaliveConfig {
    KeepaliveConfig { interval: Duration::from_millis(50), timeout: Duration::from_millis(200) }
}

fn go_on(_: &u8) -> LoopControl {
    LoopControl::Continue
}

fn stop(_: &u8) -> LoopControl {
    LoopControl::Break
}

#[test]
fn keepalive_loop_stops_when_cancelled() {
    let mut l = KeepaliveLoop::new(t0(), fast_cfg());
    assert!(matches!(l.step(KeepaliveEvent::Shutdown, t0(), go_on), KeepaliveAction::Stop));
}

#[test]
fn keepalive_loop_stops_at_the_end_of_the_stream() {
    let mut l = KeepaliveLoop::new(t0(), fast_cfg());
    let event = KeepaliveEvent::Received(Ok(None));
    assert!(matches!(l.step(event, t0(), go_on), KeepaliveAction::Stop));
}

#[test]
fn keepalive_loop_closes_after_silence() {
    let mut l = KeepaliveLoop::new(t0(), fast_cfg());
    let before = later(t0(), Duration::from_millis(199));
    assert!(matches!(
        l.step(KeepaliveEvent::<u8>::TimeoutTick, before, go_on),
        KeepaliveAction::Wait
    ));
    let at = later(t0(), Duration::from_millis(200));
    match l.step(KeepaliveEvent::<u8>::TimeoutTick, at, go_on) {
        KeepaliveAction::CloseAndStop(order) => {
            assert_eq!(order.code, 0x100);
            assert_eq!(order.reason, b"timeout");
        }
        _ => panic!("timeout should close"),
    }
}

#[test]
fn keepalive_loop_stops_when_a_heartbeat_fails() {
    let mut l = KeepaliveLoop::new(t0(), fast_cfg());
    assert!(matches!(
        l.step(KeepaliveEvent::SendTick, t0(), go_on),
        KeepaliveAction::SendHeartbeat
    ));
    assert!(matches!(l.step(KeepaliveEvent::Sent(true), t0(), go_on), KeepaliveAction::Wait));
    assert!(matches!(l.step(KeepaliveEvent::Sent(false), t0(), go_on), KeepaliveAction::Stop));
}

#[test]
fn keepalive_loop_stops_when_the_handler_says_so() {
    let mut l = KeepaliveLoop::new(t0(), fast_cfg());
    let event = KeepaliveEvent::Received(Ok(Some(1u8)));
    assert!(matches!(l.step(event, t0(), stop), KeepaliveAction::Stop));
}

#[test]
fn keepalive_loop_lives_on_messages() {
    let mut l = KeepaliveLoop::new(t0(), fast_cfg());
    let mut now = t0();
    for _ in 0..5 {
        now = later(now, Duration::from_millis(150));
        assert!(matches!(
            l.step(KeepaliveEvent::<u8>::TimeoutTick, now, go_on),
            KeepaliveAction::Wait
        ));
        let event = KeepaliveEvent::Received(Ok(Some(1u8)));
        assert!(matches!(l.step(event, now, go_on), KeepaliveAction::Wait));
    }
}

#[test]
fn keepalive_loop_exits_on_stream_error() {
    let mut l = KeepaliveLoop::new(t0(), fast_cfg());
    let e = IoError { kind: IoErrorKind::BrokenPipe, message: "gone".to_string() };
    let event = KeepaliveEvent::<u8>::Received(Err(FrameError::Codec(e)));
    assert!(matches!(l.step(event, t0(), go_on), KeepaliveAction::Stop));
}

#[test]
fn message_is_a_sign_of_life_even_if_it_ends_the_loop() {
    let mut tracker = KeepaliveTracker::new(t0());
    let mut last_seen = t0();
    let now = later(t0(), Duration::from_secs(3));
    assert!(handle_recv(Ok(Some(9u8)), now, &mut tracker, &mut last_seen, stop));
    assert_eq!(last_seen, now);
    assert!(!handle_recv(Ok(Some(9u8)), now, &mut tracker, &mut last_seen, go_on));
    let after = later(now, Duration::from_secs(3));
    assert!(handle_recv(Ok(None), after, &mut tracker, &mut last_seen, go_on));
    assert_eq!(last_seen, now);
}

#[test]
fn timeout_counts_from_the_last_sign_of_life() {
    let d = Duration::from_secs(30);
    assert!(check_timeout(t0(), t0(), d).is_none());
    assert!(check_timeout(later(t0(), d), t0(), d).is_some());
    assert!(check_timeout(t0(), later(t0(), d), d).is_none());
}

#[test]
fn close_codes_are_cut_down() {
    assert_eq!(wire_code(0), 0);
    assert_eq!(wire_code(0x100), 0x100);
    assert_eq!(wire_code((1 << 62) - 1), (1 << 62) - 1);
    assert_eq!(wire_code(1 << 62), (1 << 62) - 1);
    assert_eq!(wire_code(u64::MAX), (1 << 62) - 1);
}

#[test]
fn stop_goes_before_all_else() {
    let look = |shutdown: bool, timeout_tick: bool, send_tick: bool, msg: bool| KeepaliveLook {
        shutdown,
        timeout_tick,
        send_tick,
        received: if msg { Some(Ok(Some(1u8))) } else { None },
    };
    let all = first_of(look(true, true, true, true));
    assert!(matches!(all, Some(KeepaliveEvent::Shutdown)));
    let ticks = first_of(look(false, true, true, true));
    assert!(matches!(ticks, Some(KeepaliveEvent::TimeoutTick)));
    let send = first_of(look(false, false, true, true));
    assert!(matches!(send, Some(KeepaliveEvent::SendTick)));
    let msg = first_of(look(false, false, false, true));
    assert!(matches!(msg, Some(KeepaliveEvent::Received(Ok(Some(1))))));
    assert!(first_of(look(false, false, false, false)).is_none());
    assert_eq!(timeout_tick(), Duration::from_secs(1));
}

#[test]
fn server_closes_without_an_error() {
    assert_eq!(server_close().code, 0);
    assert_eq!(server_close().reason, b"server-close");
}

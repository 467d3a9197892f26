use vpn::client::credentials::{
    build_password_init, CliCredentialCollector, StaticCredentialCollector,
};
use vpn::client::route::{
    planned_routes, route_add_args, route_added, route_show_args, route_step, routes_step,
    CommandEnd, RouteAction, RouteEvent, RoutesAction, RoutesEvent, SystemError,
};
use vpn::client::setup::{setup_step, SetupAction, SetupEvent, SetupStage};
use vpn::client::supervisor::ExitCause;
use vpn::client::telemetry::{
    build_default_registry, due_for_push, first_of, handle_pull_msg, kinds_from_i32,
    mark_all_pushed, opening_report, push_tick, report_msg, telemetry_cause, telemetry_step,
    TelemetryAction, TelemetryEvent, TelemetryLook,
};
use vpn::client::ClientTunParams;
use vpn::io_error::{IoError, IoErrorKind};
use vpn::msgx::codec::FrameError;
use vpn::net::{Ipv4Addr, Ipv4Net};
use vpn::sysprobe::proto::{
    CollectRequest, InfoKind, TelemetryMessage, TelemetryMsg, TelemetryReport,
};
use vpn::time::{Duration, Instant};
use vpn::vpn::{AuthChallenge, AuthMethod, Challenge, Method, Response, TotpChallenge};

#[test]
fn test_build_password_init_carries_username_and_password() {
    let init = build_password_init("alice".to_string(), "s3cret".to_string());
    assert_eq!(init.username, "alice");
    let Some(Method::Password(pw)) = init.method else {
        panic!("expected Password method");
    };
    assert_eq!(pw.password, "s3cret");
}

#[test]
fn test_static_collector_collect_init_returns_password_init() {
    let c = StaticCredentialCollector {
        username: "alice".to_string(),
        password: "s3cret".to_string(),
    };
    let init = c.collect_init(&[AuthMethod::Password]);
    assert_eq!(init.username, "alice");
    let Some(Method::Password(pw)) = init.method else {
        panic!("expected Password method");
    };
    assert_eq!(pw.password, "s3cret");
}

#[test]
fn test_static_collector_collect_response_returns_default() {
    let c = StaticCredentialCollector {
        username: "alice".to_string(),
        password: "s3cret".to_string(),
    };
    let resp = c.collect_response(&AuthChallenge::default());
    assert!(resp.response.is_none());
}

fn totp() -> AuthChallenge {
    AuthChallenge {
        challenge: Some(Challenge::Totp(TotpChallenge { prompt: "Enter TOTP code".to_string() })),
    }
}

#[test]
fn user_at_the_terminal() {
    let c = CliCredentialCollector;
    let init = c.collect_init(&[], Some("  alice\n".to_string()), Some(" s3cret ".to_string()));
    assert_eq!(init.username, "alice");
    assert!(matches!(init.method, Some(Method::Password(p)) if p.password == " s3cret "));
    let init = c.collect_init(&[], None, None);
    assert_eq!(init.username, "");
    assert_eq!(c.prompt_for(&totp()), Some("Enter TOTP code".to_string()));
    assert_eq!(c.prompt_for(&AuthChallenge::default()), None);
    let r = c.collect_response(&totp(), Some("123456".to_string()));
    assert!(matches!(r.response, Some(Response::Totp(t)) if t.code == "123456"));
    let r = c.collect_response(&AuthChallenge::default(), Some("123456".to_string()));
    assert!(r.response.is_none());
}

fn subnet() -> Ipv4Net {
    Ipv4Net::parse("10.0.0.0/24").unwrap()
}

#[test]
fn test_ensure_subnet_route_linux_builds_correct_command() {
    let args = route_add_args(subnet(), "tun0");
    assert_eq!(args, vec!["route", "add", "10.0.0.0/24", "dev", "tun0"]);
}

#[test]
fn route_show_command() {
    let args = route_show_args(subnet(), "tun0");
    assert_eq!(args, vec!["route", "show", "to", "10.0.0.0/24", "dev", "tun0"]);
}

#[test]
fn test_add_routes_when_empty_returns_ok_without_route_manager() {
    let plan = planned_routes("utun99", &[]);
    assert!(plan.is_empty());
    assert!(matches!(
        routes_step(RoutesEvent::Planned, &plan, 17),
        RoutesAction::Done(Ok(()))
    ));
}

#[test]
fn routes_go_to_their_networks() {
    let routes = [Ipv4Net::parse("192.168.7.9/24").unwrap(), subnet()];
    let plan = planned_routes("tun0", &routes);
    assert_eq!(plan.len(), 2);
    assert_eq!(plan[0].network, Ipv4Addr::new(192, 168, 7, 0));
    assert_eq!(plan[0].prefix, 24);
    assert_eq!(plan[0].if_name, "tun0");
    assert_eq!(plan[1].network, Ipv4Addr::new(10, 0, 0, 0));
}

fn end(success: bool, code: Option<i32>) -> CommandEnd {
    CommandEnd { success, code }
}

fn io(message: &str) -> IoError {
    IoError { kind: IoErrorKind::NotFound, message: message.to_string() }
}

#[test]
fn adding_a_route_step_by_step() {
    let step = |e: RouteEvent| route_step(e, subnet(), "tun0");
    assert!(matches!(step(RouteEvent::Added(Ok(end(true, Some(0))))), RouteAction::Done));
    assert!(matches!(step(RouteEvent::Added(Ok(end(false, Some(2))))), RouteAction::Show));
    assert!(matches!(step(RouteEvent::Added(Err(io("no ip")))), RouteAction::Fail(e) if e == io("no ip")));
    let added = end(false, Some(2));
    assert!(matches!(
        step(RouteEvent::Shown { added, shown: Ok(end(true, Some(0))) }),
        RouteAction::Done
    ));
    assert!(matches!(
        step(RouteEvent::Shown { added, shown: Err(io("no ip")) }),
        RouteAction::Fail(e) if e == io("no ip")
    ));
    match step(RouteEvent::Shown { added, shown: Ok(end(false, Some(1))) }) {
        RouteAction::Fail(e) => {
            assert_eq!(e.kind, IoErrorKind::Other);
            assert_eq!(
                e.message,
                "failed to add route 10.0.0.0/24 dev tun0: ip exited with 2"
            );
        }
        _ => panic!("a failure was due"),
    }
    let added = end(false, None);
    match step(RouteEvent::Shown { added, shown: Ok(end(false, Some(1))) }) {
        RouteAction::Fail(e) => assert!(e.message.ends_with("ip exited with -1")),
        _ => panic!("a failure was due"),
    }
}

#[test]
fn route_that_is_there_already_is_as_good() {
    let fault = |os_error: Option<i32>| SystemError { os_error, error: io("x") };
    assert_eq!(route_added(Ok(()), 17), Ok(()));
    assert_eq!(route_added(Err(fault(Some(17))), 17), Ok(()));
    assert_eq!(route_added(Err(fault(Some(1))), 17), Err(io("x")));
    assert_eq!(route_added(Err(fault(None)), 17), Err(io("x")));
}

#[test]
fn routes_are_added_one_after_the_other() {
    let plan = planned_routes("tun0", &[subnet(), subnet()]);
    let step = |e: RoutesEvent| routes_step(e, &plan, 17);
    let fault = |os_error: Option<i32>| SystemError { os_error, error: io("x") };
    assert!(matches!(step(RoutesEvent::Planned), RoutesAction::Open));
    assert!(matches!(step(RoutesEvent::Opened(Ok(()))), RoutesAction::Add(0)));
    assert!(matches!(
        step(RoutesEvent::Opened(Err(io("no")))),
        RoutesAction::Done(Err(e)) if e == io("no")
    ));
    assert!(matches!(
        step(RoutesEvent::Added { index: 0, outcome: Ok(()) }),
        RoutesAction::Add(1)
    ));
    assert!(matches!(
        step(RoutesEvent::Added { index: 0, outcome: Err(fault(Some(17))) }),
        RoutesAction::Add(1)
    ));
    assert!(matches!(
        step(RoutesEvent::Added { index: 1, outcome: Ok(()) }),
        RoutesAction::Done(Ok(()))
    ));
    assert!(matches!(
        step(RoutesEvent::Added { index: 0, outcome: Err(fault(Some(1))) }),
        RoutesAction::Done(Err(e)) if e == io("x")
    ));
}

fn params() -> ClientTunParams {
    ClientTunParams {
        assigned_ip: Ipv4Addr::new(10, 0, 0, 2),
        subnet: subnet(),
        gateway: Ipv4Addr::new(10, 0, 0, 1),
        mtu: 1280,
        routes: vec![Ipv4Net::parse("192.168.7.0/24").unwrap()],
    }
}

#[test]
fn tunnel_is_set_up_step_by_step() {
    let step = |e: SetupEvent| setup_step(e, &params());
    match step(SetupEvent::Created(Ok(Some("tun0".to_string())))) {
        SetupAction::EnsureSubnetRoute { dev_name, subnet: net } => {
            assert_eq!(dev_name, "tun0");
            assert_eq!(net, subnet());
        }
        _ => panic!("the route to the subnet was due"),
    }
    assert!(matches!(
        step(SetupEvent::Created(Ok(None))),
        SetupAction::EnsureSubnetRoute { dev_name, .. } if dev_name.is_empty()
    ));
    let dev_name = "tun0".to_string();
    match step(SetupEvent::SubnetRouted { dev_name, outcome: Ok(()) }) {
        SetupAction::AddRoutes { dev_name, routes } => {
            assert_eq!(dev_name, "tun0");
            assert_eq!(routes, params().routes);
        }
        _ => panic!("the other routes were due"),
    }
    assert!(matches!(step(SetupEvent::RoutesAdded(Ok(()))), SetupAction::Ready));
}

#[test]
fn setup_ends_with_the_first_failure() {
    let failed = |e: SetupEvent| match setup_step(e, &params()) {
        SetupAction::Fail { stage, error } => {
            assert_eq!(error, io("x"));
            stage.failure_text()
        }
        _ => panic!("a failure was due"),
    };
    assert_eq!(
        failed(SetupEvent::Created(Err(io("x")))),
        "failed to create client TUN device"
    );
    let dev_name = "tun0".to_string();
    assert_eq!(
        failed(SetupEvent::SubnetRouted { dev_name, outcome: Err(io("x")) }),
        "failed to configure subnet route"
    );
    assert_eq!(
        failed(SetupEvent::RoutesAdded(Err(io("x")))),
        "failed to add extra routes"
    );
    assert_ne!(SetupStage::Device, SetupStage::ExtraRoutes);
}

fn t0() -> Instant {
    Instant::from_nanos(5)
}

fn after(secs: u64) -> Instant {
    t0().checked_add(Duration::from_secs(secs)).unwrap()
}

#[test]
fn default_registry_schedule() {
    let mut reg = build_default_registry(t0());
    assert_eq!(reg.kinds().len(), 5);
    assert_eq!(push_tick(), Duration::from_secs(1));
    assert!(due_for_push(&reg, after(29)).is_none());
    assert_eq!(due_for_push(&reg, after(30)), Some(vec![InfoKind::ProcessSummary]));
    let due = due_for_push(&reg, after(600)).unwrap();
    assert_eq!(due.len(), 4);
    assert!(!due.contains(&InfoKind::DiskInfo));
    mark_all_pushed(&mut reg, &due, after(600));
    assert!(due_for_push(&reg, after(629)).is_none());
    assert_eq!(due_for_push(&reg, after(630)), Some(vec![InfoKind::ProcessSummary]));
}

#[test]
fn requests_name_their_kinds() {
    let req = |kinds: Vec<i32>| TelemetryMessage {
        msg: Some(TelemetryMsg::CollectReq(CollectRequest { kinds })),
    };
    let disk = InfoKind::DiskInfo.as_i32();
    assert_eq!(handle_pull_msg(Ok(Some(req(vec![disk, 99, 0])))), Some(kinds_from_i32(&[disk, 0])));
    assert_eq!(handle_pull_msg(Ok(Some(req(vec![])))), Some(vec![]));
    assert_eq!(handle_pull_msg(Ok(Some(opening_report()))), None);
    assert_eq!(handle_pull_msg(Ok(Some(TelemetryMessage { msg: None }))), None);
    assert_eq!(handle_pull_msg(Ok(None)), None);
    assert_eq!(handle_pull_msg(Err(FrameError::Decode("x".to_string()))), None);
}

#[test]
fn reports_are_messages() {
    let report = TelemetryReport { ts_ms: 3, items: vec![] };
    assert_eq!(report_msg(report.clone()).msg, Some(TelemetryMsg::Report(report)));
    assert!(matches!(
        opening_report().msg,
        Some(TelemetryMsg::Report(r)) if r.ts_ms == 0 && r.items.is_empty()
    ));
    assert_eq!(telemetry_cause(), ExitCause::TelemetryEnded);
    assert_eq!(kinds_from_i32(&[1, -1, 3]), vec![InfoKind::ProcessList, InfoKind::NetifList]);
}

fn report(ts_ms: u64) -> TelemetryReport {
    TelemetryReport { ts_ms, items: vec![] }
}

#[test]
fn telemetry_pushes_what_is_due() {
    let mut reg = build_default_registry(t0());
    assert!(matches!(
        telemetry_step(&mut reg, TelemetryEvent::Tick(after(29))),
        TelemetryAction::Wait
    ));
    let (due, at) = match telemetry_step(&mut reg, TelemetryEvent::Tick(after(30))) {
        TelemetryAction::Push { due, at } => (due, at),
        _ => panic!("a push was due"),
    };
    assert_eq!(due, vec![InfoKind::ProcessSummary]);
    assert_eq!(at, after(30));
    let event = TelemetryEvent::Pushed { due, at, report: report(9) };
    assert!(matches!(
        telemetry_step(&mut reg, event),
        TelemetryAction::Send(m) if m == report_msg(report(9))
    ));
    assert!(due_for_push(&reg, after(59)).is_none());
    let lost = FrameError::Decode("x".to_string());
    assert!(matches!(
        telemetry_step(&mut reg, TelemetryEvent::Sent(Err(lost))),
        TelemetryAction::Wait
    ));
    assert!(matches!(
        telemetry_step(&mut reg, TelemetryEvent::Sent(Ok(()))),
        TelemetryAction::Wait
    ));
}

#[test]
fn telemetry_answers_requests_until_told_to_stop() {
    let mut reg = build_default_registry(t0());
    let request = TelemetryMessage {
        msg: Some(TelemetryMsg::CollectReq(CollectRequest {
            kinds: vec![InfoKind::DiskInfo.as_i32(), 99],
        })),
    };
    assert!(matches!(
        telemetry_step(&mut reg, TelemetryEvent::Received(Ok(Some(request)))),
        TelemetryAction::Pull(kinds) if kinds == vec![InfoKind::DiskInfo]
    ));
    assert!(matches!(
        telemetry_step(&mut reg, TelemetryEvent::Pulled(report(3))),
        TelemetryAction::Send(m) if m == report_msg(report(3))
    ));
    let stray = Ok(Some(opening_report()));
    assert!(matches!(
        telemetry_step(&mut reg, TelemetryEvent::Received(stray)),
        TelemetryAction::Stop
    ));
    assert!(matches!(
        telemetry_step(&mut reg, TelemetryEvent::Received(Ok(None))),
        TelemetryAction::Stop
    ));
    assert!(matches!(
        telemetry_step(&mut reg, TelemetryEvent::Shutdown),
        TelemetryAction::Stop
    ));
}

#[test]
fn telemetry_takes_up_stop_then_tick_then_message() {
    let look = |shutdown: bool, tick: bool, msg: bool| TelemetryLook {
        shutdown,
        tick: if tick { Some(after(1)) } else { None },
        received: if msg { Some(Ok(None)) } else { None },
    };
    let all = first_of(look(true, true, true));
    assert!(matches!(all, Some(TelemetryEvent::Shutdown)));
    let tick = first_of(look(false, true, true));
    assert!(matches!(tick, Some(TelemetryEvent::Tick(at)) if at == after(1)));
    let msg = first_of(look(false, false, true));
    assert!(matches!(msg, Some(TelemetryEvent::Received(Ok(None)))));
    assert!(first_of(look(false, false, false)).is_none());
}

use vpn::client::preauth::{
    auth_init, auth_request, auth_response, auth_step, connect_step, deny_reason_text,
    entry_builder, first_response, handle_auth_msg, heartbeat, interpret_auth_response, login_step,
    open_signal, parse_auth_ok, parse_supported_methods, validate_hello, validate_mtu,
    validate_username, AuthAction, AuthEvent, ClientError, ConnectAction, ConnectEvent, EntryError,
    LoginAction, LoginEvent,
};
use vpn::config::{ClientConfig, SocketAddr};
use vpn::ctrl::PROTOCOL_VERSION;
use vpn::msgx::codec::FrameError;
use vpn::net::{Ipv4Addr, Ipv4Net};
use vpn::vpn::{
    AuthChallenge, AuthDenied, AuthInit, AuthMethod, AuthOk, AuthResponse, Challenge,
    ControlMessage, DenyReason, Heartbeat, Msg, ServerHello, TotpChallenge,
};

fn auth_ok() -> AuthOk {
    AuthOk {
        assigned_ip: "10.0.0.2".to_string(),
        subnet: "10.0.0.0/24".to_string(),
        gateway: "10.0.0.1".to_string(),
        mtu: 1280,
        routes: vec![],
    }
}

fn message(msg: Msg) -> ControlMessage {
    ControlMessage { msg: Some(msg) }
}

fn assert_displays_unique(all: &[String]) {
    for i in 0..all.len() {
        for j in (i + 1)..all.len() {
            assert_ne!(all[i], all[j], "duplicate at {i},{j}");
        }
    }
}

#[test]
fn client_test_parse_auth_ok_when_valid_returns_params() {
    let params = parse_auth_ok(&auth_ok()).unwrap();
    assert_eq!(params.assigned_ip, Ipv4Addr::new(10, 0, 0, 2));
    assert_eq!(params.subnet, Ipv4Net::parse("10.0.0.0/24").unwrap());
    assert_eq!(params.gateway, Ipv4Addr::new(10, 0, 0, 1));
    assert_eq!(params.mtu, 1280);
    assert!(params.routes.is_empty());
}

#[test]
fn client_test_parse_auth_ok_when_invalid_assigned_ip_returns_err() {
    let mut ok = auth_ok();
    ok.assigned_ip = "not-an-ip".to_string();
    assert!(matches!(parse_auth_ok(&ok), Err(ClientError::InvalidAssignedIp(_))));
}

#[test]
fn client_test_parse_auth_ok_when_invalid_gateway_returns_err() {
    let mut ok = auth_ok();
    ok.gateway = "not-an-ip".to_string();
    assert!(matches!(parse_auth_ok(&ok), Err(ClientError::InvalidGateway(_))));
}

#[test]
fn client_test_parse_auth_ok_when_invalid_subnet_returns_err() {
    let mut ok = auth_ok();
    ok.subnet = "not-a-net".to_string();
    assert!(matches!(parse_auth_ok(&ok), Err(ClientError::InvalidSubnet(_))));
}

#[test]
fn client_test_parse_auth_ok_when_mtu_below_min_returns_err() {
    let mut ok = auth_ok();
    ok.mtu = 1000;
    assert!(matches!(parse_auth_ok(&ok), Err(ClientError::MtuTooSmall(_))));
}

#[test]
fn client_test_parse_auth_ok_when_mtu_above_max_returns_err() {
    let mut ok = auth_ok();
    ok.mtu = 65_536;
    assert!(matches!(parse_auth_ok(&ok), Err(ClientError::MtuTooLarge(_))));
}

#[test]
fn client_test_parse_auth_ok_when_gateway_outside_subnet_returns_err() {
    let mut ok = auth_ok();
    ok.gateway = "192.168.1.1".to_string();
    assert!(matches!(parse_auth_ok(&ok), Err(ClientError::GatewayOutsideSubnet(_, _))));
}

#[test]
fn client_test_parse_auth_ok_when_gateway_is_network_addr_returns_err() {
    let mut ok = auth_ok();
    ok.gateway = "10.0.0.0".to_string();
    assert!(matches!(parse_auth_ok(&ok), Err(ClientError::GatewayIsNetworkAddr(_))));
}

#[test]
fn client_test_parse_auth_ok_when_gateway_is_host_addr_returns_ok() {
    let mut ok = auth_ok();
    ok.gateway = "10.0.0.1".to_string();
    assert!(parse_auth_ok(&ok).is_ok());
}

#[test]
fn client_test_parse_auth_ok_when_routes_present_returns_params_with_routes() {
    let mut ok = auth_ok();
    ok.routes = vec!["192.168.100.0/24".to_string()];
    let params = parse_auth_ok(&ok).unwrap();
    assert_eq!(params.routes, vec![Ipv4Net::parse("192.168.100.0/24").unwrap()]);
}

#[test]
fn client_test_parse_auth_ok_when_routes_empty_returns_params_with_empty_routes() {
    let mut ok = auth_ok();
    ok.routes = vec![];
    let params = parse_auth_ok(&ok).unwrap();
    assert!(params.routes.is_empty());
}

#[test]
fn client_test_parse_auth_ok_when_routes_contains_invalid_cidr_returns_invalid_route() {
    let mut ok = auth_ok();
    ok.routes = vec!["not-a-cidr".to_string()];
    assert!(matches!(parse_auth_ok(&ok), Err(ClientError::InvalidRoute(_))));
}

#[test]
fn client_test_client_error_variants_display_are_distinct() {
    let all = vec![
        ClientError::InvalidAssignedIp("x".into()).message(),
        ClientError::InvalidGateway("x".into()).message(),
        ClientError::InvalidSubnet("x".into()).message(),
        ClientError::MtuTooSmall(100).message(),
        ClientError::MtuTooLarge(70_000).message(),
        ClientError::GatewayOutsideSubnet(
            Ipv4Addr::new(10, 0, 0, 9),
            Ipv4Net::parse("10.0.0.0/24").unwrap(),
        )
        .message(),
        ClientError::GatewayIsNetworkAddr(Ipv4Addr::new(10, 0, 0, 0)).message(),
        ClientError::AuthDenied("wrong password".into()).message(),
        ClientError::IncompatibleVersion(99).message(),
        ClientError::Protocol("unexpected msg".into()).message(),
        ClientError::InvalidRoute("not-a-cidr".into()).message(),
    ];
    assert_displays_unique(&all);
    assert!(all[0].contains("assigned_ip"));
    assert!(all[1].contains("gateway"));
    assert!(all[2].contains("subnet"));
    assert!(all[3].contains("1280"));
    assert!(all[4].contains("65535"));
    assert_eq!(all[5], "AuthOk gateway 10.0.0.9 is not inside subnet 10.0.0.0/24");
    assert!(all[7].contains("authentication failed"));
    assert!(all[8].contains("incompatible"));
    assert!(all[9].contains("protocol"));
    assert!(all[10].contains("route"));
}

#[test]
fn client_test_deny_reason_text_maps_known_reasons() {
    assert!(deny_reason_text(DenyReason::AuthFailed.as_i32()).contains("认证失败"));
    assert!(deny_reason_text(DenyReason::ServerBusy.as_i32()).contains("服务端繁忙"));
    assert!(deny_reason_text(999).contains("未知"));
}

#[test]
fn client_test_validate_username_when_empty_returns_err() {
    for raw in ["", "   ", "\t"] {
        let err = validate_username(raw).expect_err("empty input must error");
        assert!(err.contains("用户名不能为空"), "raw={raw:?}");
    }
}

#[test]
fn client_test_validate_username_when_non_empty_returns_trimmed() {
    let got = validate_username("  alice  ").expect("non-empty must succeed");
    assert_eq!(got, "alice");
}

#[test]
fn preauth_test_parse_auth_ok_when_valid_returns_params() {
    let params = parse_auth_ok(&auth_ok()).unwrap();
    assert_eq!(params.assigned_ip, Ipv4Addr::new(10, 0, 0, 2));
    assert_eq!(params.subnet, Ipv4Net::parse("10.0.0.0/24").unwrap());
    assert_eq!(params.gateway, Ipv4Addr::new(10, 0, 0, 1));
    assert_eq!(params.mtu, 1280);
    assert!(params.routes.is_empty());
}

#[test]
fn preauth_test_parse_auth_ok_when_invalid_assigned_ip_returns_err() {
    let mut ok = auth_ok();
    ok.assigned_ip = "not-an-ip".to_string();
    assert!(matches!(parse_auth_ok(&ok), Err(ClientError::InvalidAssignedIp(_))));
}

#[test]
fn preauth_test_parse_auth_ok_when_invalid_gateway_returns_err() {
    let mut ok = auth_ok();
    ok.gateway = "not-an-ip".to_string();
    assert!(matches!(parse_auth_ok(&ok), Err(ClientError::InvalidGateway(_))));
}

#[test]
fn preauth_test_parse_auth_ok_when_invalid_subnet_returns_err() {
    let mut ok = auth_ok();
    ok.subnet = "not-a-net".to_string();
    assert!(matches!(parse_auth_ok(&ok), Err(ClientError::InvalidSubnet(_))));
}

#[test]
fn preauth_test_parse_auth_ok_when_mtu_below_min_returns_err() {
    let mut ok = auth_ok();
    ok.mtu = 1000;
    assert!(matches!(parse_auth_ok(&ok), Err(ClientError::MtuTooSmall(_))));
}

#[test]
fn preauth_test_parse_auth_ok_when_mtu_above_max_returns_err() {
    let mut ok = auth_ok();
    ok.mtu = 65_536;
    assert!(matches!(parse_auth_ok(&ok), Err(ClientError::MtuTooLarge(_))));
}

#[test]
fn preauth_test_parse_auth_ok_when_gateway_outside_subnet_returns_err() {
    let mut ok = auth_ok();
    ok.gateway = "192.168.1.1".to_string();
    assert!(matches!(parse_auth_ok(&ok), Err(ClientError::GatewayOutsideSubnet(_, _))));
}

#[test]
fn preauth_test_parse_auth_ok_when_gateway_is_network_addr_returns_err() {
    let mut ok = auth_ok();
    ok.gateway = "10.0.0.0".to_string();
    assert!(matches!(parse_auth_ok(&ok), Err(ClientError::GatewayIsNetworkAddr(_))));
}

#[test]
fn preauth_test_parse_auth_ok_when_gateway_is_host_addr_returns_ok() {
    let mut ok = auth_ok();
    ok.gateway = "10.0.0.1".to_string();
    assert!(parse_auth_ok(&ok).is_ok());
}

#[test]
fn preauth_test_parse_auth_ok_when_routes_present_returns_params_with_routes() {
    let mut ok = auth_ok();
    ok.routes = vec!["192.168.100.0/24".to_string()];
    let params = parse_auth_ok(&ok).unwrap();
    assert_eq!(params.routes, vec![Ipv4Net::parse("192.168.100.0/24").unwrap()]);
}

#[test]
fn preauth_test_parse_auth_ok_when_routes_empty_returns_params_with_empty_routes() {
    let mut ok = auth_ok();
    ok.routes = vec![];
    let params = parse_auth_ok(&ok).unwrap();
    assert!(params.routes.is_empty());
}

#[test]
fn preauth_test_parse_auth_ok_when_routes_contains_invalid_cidr_returns_invalid_route() {
    let mut ok = auth_ok();
    ok.routes = vec!["not-a-cidr".to_string()];
    assert!(matches!(parse_auth_ok(&ok), Err(ClientError::InvalidRoute(_))));
}

#[test]
fn preauth_test_client_error_variants_display_are_distinct() {
    let all = vec![
        ClientError::InvalidAssignedIp("x".into()).message(),
        ClientError::InvalidGateway("x".into()).message(),
        ClientError::InvalidSubnet("x".into()).message(),
        ClientError::MtuTooSmall(100).message(),
        ClientError::MtuTooLarge(70_000).message(),
        ClientError::GatewayOutsideSubnet(
            Ipv4Addr::new(10, 0, 0, 9),
            Ipv4Net::parse("10.0.0.0/24").unwrap(),
        )
        .message(),
        ClientError::GatewayIsNetworkAddr(Ipv4Addr::new(10, 0, 0, 0)).message(),
        ClientError::AuthDenied("wrong password".into()).message(),
        ClientError::IncompatibleVersion(99).message(),
        ClientError::Protocol("unexpected msg".into()).message(),
        ClientError::InvalidRoute("not-a-cidr".into()).message(),
    ];
    assert_displays_unique(&all);
    assert!(all[0].contains("assigned_ip"));
    assert!(all[1].contains("gateway"));
    assert!(all[2].contains("subnet"));
    assert!(all[3].contains("1280"));
    assert!(all[4].contains("65535"));
    assert_eq!(all[5], "AuthOk gateway 10.0.0.9 is not inside subnet 10.0.0.0/24");
    assert!(all[7].contains("authentication failed"));
    assert!(all[8].contains("incompatible"));
    assert!(all[9].contains("protocol"));
    assert!(all[10].contains("route"));
}

#[test]
fn preauth_test_deny_reason_text_maps_known_reasons() {
    assert!(deny_reason_text(DenyReason::AuthFailed.as_i32()).contains("认证失败"));
    assert!(deny_reason_text(DenyReason::ServerBusy.as_i32()).contains("服务端繁忙"));
    assert!(deny_reason_text(999).contains("未知"));
}

#[test]
fn preauth_test_validate_username_when_empty_returns_err() {
    for raw in ["", "   ", "\t"] {
        let err = validate_username(raw).expect_err("empty input must error");
        assert!(err.contains("用户名不能为空"), "raw={raw:?}");
    }
}

#[test]
fn preauth_test_validate_username_when_non_empty_returns_trimmed() {
    let got = validate_username("  alice  ").expect("non-empty must succeed");
    assert_eq!(got, "alice");
}

#[test]
fn names_keep_the_spaces_inside() {
    assert_eq!(validate_username("\u{3000}a b\u{a0}\n"), Ok("a b".to_string()));
}

#[test]
fn addresses_are_looked_at_before_mtu_and_mtu_before_gateway_and_gateway_before_routes() {
    let mut ok = auth_ok();
    ok.routes = vec!["1.2.3.0/24".to_string(), "bad".to_string(), "worse".to_string()];
    assert_eq!(parse_auth_ok(&ok), Err(ClientError::InvalidRoute("bad".to_string())));
    ok.gateway = "10.0.0.0".to_string();
    assert!(matches!(parse_auth_ok(&ok), Err(ClientError::GatewayIsNetworkAddr(_))));
    ok.mtu = 1279;
    assert_eq!(parse_auth_ok(&ok), Err(ClientError::MtuTooSmall(1279)));
    ok.subnet = "10.0.0.0".to_string();
    assert!(matches!(parse_auth_ok(&ok), Err(ClientError::InvalidSubnet(_))));
    ok.gateway = "x".to_string();
    assert!(matches!(parse_auth_ok(&ok), Err(ClientError::InvalidGateway(_))));
    ok.assigned_ip = "y".to_string();
    assert_eq!(parse_auth_ok(&ok), Err(ClientError::InvalidAssignedIp("y".to_string())));
}

#[test]
fn mtu_bounds() {
    assert_eq!(validate_mtu(1279), Err(ClientError::MtuTooSmall(1279)));
    assert_eq!(validate_mtu(1280), Ok(1280));
    assert_eq!(validate_mtu(65_535), Ok(65_535));
    assert_eq!(validate_mtu(65_536), Err(ClientError::MtuTooLarge(65_536)));
}

#[test]
fn place_from_a_pool_is_taken() {
    let subnet = Ipv4Net::parse("10.8.0.0/16").unwrap();
    let mut pool = vpn::ipam::IpPool::new(subnet).unwrap();
    let assigned = pool.allocate().unwrap();
    let gateway = vpn::tun_setup::gateway_addr(subnet);
    let params = parse_auth_ok(&AuthOk {
        assigned_ip: assigned.to_text(),
        subnet: subnet.to_text(),
        gateway: gateway.to_text(),
        mtu: 1280,
        routes: vec![],
    })
    .unwrap();
    assert_eq!(params.assigned_ip, assigned);
    assert_eq!(params.gateway, gateway);
    assert_eq!(params.subnet, subnet);
}

#[test]
fn answers_to_name_and_password() {
    assert!(interpret_auth_response(message(Msg::AuthOk(auth_ok()))).is_ok());
    let denied = Msg::AuthDenied(AuthDenied { reason: DenyReason::ServerBusy.as_i32() });
    assert_eq!(
        interpret_auth_response(message(denied)),
        Err(ClientError::AuthDenied("服务端繁忙（IP 池耗尽）".to_string()))
    );
    assert_eq!(
        interpret_auth_response(ControlMessage { msg: None }),
        Err(ClientError::Protocol("expected AuthOk but got an unexpected message".to_string()))
    );
    assert!(first_response(Ok(Some(message(Msg::AuthOk(auth_ok()))))).is_ok());
    assert_eq!(
        first_response(Ok(None)).unwrap_err().message(),
        "control stream closed before AuthOk"
    );
    assert_eq!(
        first_response(Err(FrameError::Decode("x".to_string()))).unwrap_err().message(),
        "failed to decode first response: decode error"
    );
    let e = first_response(Ok(Some(ControlMessage { msg: None }))).unwrap_err();
    assert!(matches!(e, EntryError::Client(ClientError::Protocol(_))));
}

fn server_hello(version: u32) -> ControlMessage {
    message(Msg::ServerHello(ServerHello {
        protocol_version: version,
        supported_methods: vec![AuthMethod::Password.as_i32()],
    }))
}

#[test]
fn greeting_of_another_version() {
    assert_eq!(
        validate_hello(Ok(Some(server_hello(99)))),
        Err(ClientError::IncompatibleVersion(99))
    );
}

#[test]
fn message_that_is_no_greeting() {
    assert!(matches!(
        validate_hello(Ok(Some(message(Msg::AuthOk(auth_ok()))))),
        Err(ClientError::Protocol(_))
    ));
}

#[test]
fn greeting_of_this_version() {
    assert_eq!(
        validate_hello(Ok(Some(server_hello(PROTOCOL_VERSION)))),
        Ok(vec![AuthMethod::Password])
    );
}

#[test]
fn greeting_that_does_not_come() {
    assert_eq!(
        validate_hello(Ok(None)),
        Err(ClientError::Protocol("control stream closed before ServerHello".to_string()))
    );
    assert_eq!(
        validate_hello(Err(FrameError::Decode("x".to_string()))),
        Err(ClientError::Protocol("failed to receive ServerHello: decode error".to_string()))
    );
}

#[test]
fn methods_that_are_none_are_passed_over() {
    let p = AuthMethod::Password;
    assert_eq!(parse_supported_methods(&[7, p.as_i32(), -1, p.as_i32()]), vec![p, p]);
    assert!(parse_supported_methods(&[]).is_empty());
}

fn client_config() -> ClientConfig {
    ClientConfig {
        server: SocketAddr::V4 { addr: Ipv4Addr::new(127, 0, 0, 1), port: 4433 },
        server_name: "localhost".to_string(),
        ca_cert: "cert.pem".to_string(),
    }
}

fn way_of(a: ConnectAction) -> String {
    match a {
        ConnectAction::Fail(e) => e.message(),
        _ => panic!("a failure was due"),
    }
}

#[test]
fn way_in_step_by_step() {
    let c = client_config();
    assert!(matches!(
        connect_step(ConnectEvent::Built(Ok(())), &c),
        ConnectAction::Connect(a) if a == c.server
    ));
    assert!(matches!(
        connect_step(ConnectEvent::Connected(Ok(())), &c),
        ConnectAction::OpenStream
    ));
    assert!(matches!(
        connect_step(ConnectEvent::Opened(Ok(())), &c),
        ConnectAction::Send(m) if m == open_signal()
    ));
    assert!(matches!(
        connect_step(ConnectEvent::Signalled(Ok(())), &c),
        ConnectAction::ReceiveGreeting
    ));
    let hello = Ok(Some(server_hello(PROTOCOL_VERSION)));
    assert!(matches!(
        connect_step(ConnectEvent::Greeted(hello), &c),
        ConnectAction::Ready(m) if m == vec![AuthMethod::Password]
    ));
}

#[test]
fn way_in_that_is_blocked() {
    let c = client_config();
    let e = || Err("why".to_string());
    assert_eq!(way_of(connect_step(ConnectEvent::Built(e()), &c)), "failed to build client");
    assert_eq!(way_of(connect_step(ConnectEvent::Connected(e()), &c)), "why");
    assert_eq!(
        way_of(connect_step(ConnectEvent::Opened(e()), &c)),
        "failed to open control stream"
    );
    assert_eq!(
        way_of(connect_step(ConnectEvent::Signalled(e()), &c)),
        "failed to open control stream on peer"
    );
    assert_eq!(
        way_of(connect_step(ConnectEvent::Greeted(Ok(Some(server_hello(2)))), &c)),
        "incompatible protocol version: server=2, client=1"
    );
}

#[test]
fn accepted_at_once() {
    assert!(matches!(
        handle_auth_msg(message(Msg::AuthOk(auth_ok()))),
        AuthAction::Done(p) if p.mtu == 1280
    ));
}

#[test]
fn denied_for_the_password() {
    let denied = Msg::AuthDenied(AuthDenied { reason: DenyReason::AuthFailed.as_i32() });
    match handle_auth_msg(message(denied)) {
        AuthAction::Fail(e) => {
            assert_eq!(e.message(), "authentication failed: 认证失败（用户名或密码错误）");
        }
        _ => panic!("a failure was due"),
    }
}

#[test]
fn accepted_after_a_challenge() {
    let challenge = AuthChallenge {
        challenge: Some(Challenge::Totp(TotpChallenge { prompt: "Enter TOTP code".to_string() })),
    };
    assert!(matches!(auth_step(AuthEvent::InitSent(Ok(()))), AuthAction::Receive));
    let received = Ok(Some(message(Msg::AuthChallenge(challenge.clone()))));
    assert!(matches!(
        auth_step(AuthEvent::Received(received)),
        AuthAction::Answer(c) if c == challenge
    ));
    assert!(matches!(auth_step(AuthEvent::ResponseSent(Ok(()))), AuthAction::Receive));
    let received = Ok(Some(message(Msg::AuthOk(auth_ok()))));
    assert!(matches!(auth_step(AuthEvent::Received(received)), AuthAction::Done(_)));
}

#[test]
fn auth_loop_failures() {
    let text = |a: AuthAction| match a {
        AuthAction::Fail(e) => e.message(),
        _ => panic!("a failure was due"),
    };
    let e = || Err("why".to_string());
    assert_eq!(text(auth_step(AuthEvent::InitSent(e()))), "failed to send AuthInit");
    assert_eq!(text(auth_step(AuthEvent::ResponseSent(e()))), "failed to send AuthResponse");
    assert_eq!(
        text(auth_step(AuthEvent::Received(Ok(None)))),
        "control stream closed during auth"
    );
    assert_eq!(
        text(auth_step(AuthEvent::Received(Err(FrameError::Decode("x".to_string()))))),
        "failed to receive auth response: decode error"
    );
    assert_eq!(
        text(auth_step(AuthEvent::Received(Ok(Some(message(Msg::Heartbeat(Heartbeat {}))))))),
        "protocol error: unexpected message during auth loop"
    );
}

#[test]
fn messages_that_a_client_sends() {
    assert_eq!(open_signal().msg, None);
    assert_eq!(heartbeat().msg, Some(Msg::Heartbeat(Heartbeat {})));
    let init = AuthInit { username: "a".to_string(), method: None };
    assert_eq!(auth_init(init.clone()).msg, Some(Msg::AuthInit(init)));
    let resp = AuthResponse::default();
    assert_eq!(auth_response(resp.clone()).msg, Some(Msg::AuthResponse(resp)));
    match auth_request("alice", "s3cret".to_string()).msg {
        Some(Msg::AuthRequest(q)) => {
            assert_eq!((q.username.as_str(), q.password.as_str()), ("alice", "s3cret"));
        }
        _ => panic!("a request was due"),
    }
}

#[test]
fn login_step_by_step() {
    let c = client_config();
    let step = |e: LoginEvent| login_step(e, &c, "alice", "s3cret");
    assert!(matches!(
        step(LoginEvent::Built(Ok(()))),
        LoginAction::Connect(server) if server == c.server
    ));
    assert!(matches!(step(LoginEvent::Connected(Ok(()))), LoginAction::OpenStream));
    assert!(matches!(
        step(LoginEvent::Opened(Ok(()))),
        LoginAction::Send(m) if m == auth_request("alice", "s3cret".to_string())
    ));
    assert!(matches!(step(LoginEvent::RequestSent(Ok(()))), LoginAction::ReceiveAnswer));
    let answer = Ok(Some(message(Msg::AuthOk(auth_ok()))));
    assert!(matches!(
        step(LoginEvent::Answered(answer)),
        LoginAction::Done(p) if p == parse_auth_ok(&auth_ok()).unwrap()
    ));
}

#[test]
fn login_that_fails() {
    let c = client_config();
    let why = || Err("why".to_string());
    let failed = |e: LoginEvent| match login_step(e, &c, "alice", "s3cret") {
        LoginAction::Fail(e) => e.message(),
        _ => panic!("a failure was due"),
    };
    assert_eq!(failed(LoginEvent::Built(why())), "failed to build client");
    assert_eq!(failed(LoginEvent::Connected(why())), "why");
    assert_eq!(failed(LoginEvent::Opened(why())), "failed to open control stream");
    assert_eq!(failed(LoginEvent::RequestSent(why())), "failed to send AuthRequest");
    assert_eq!(
        failed(LoginEvent::Answered(Ok(None))),
        "control stream closed before AuthOk"
    );
    let denied = message(Msg::AuthDenied(AuthDenied { reason: DenyReason::AuthFailed.as_i32() }));
    assert_eq!(
        failed(LoginEvent::Answered(Ok(Some(denied)))),
        "authentication failed: 认证失败（用户名或密码错误）"
    );
}

#[test]
fn client_trusts_and_talks_to_whom_the_configuration_names() {
    let c = client_config();
    let s = entry_builder(&c).settings().unwrap();
    assert_eq!(s.ca, c.ca_cert);
    assert_eq!(s.server_name, c.server_name);
}

#[test]
fn place_with_routes_is_taken() {
    let mut ok = auth_ok();
    ok.routes = vec!["192.168.7.9/24".to_string(), "10.9.0.0/016".to_string()];
    assert!(parse_auth_ok(&ok).is_err());
    ok.routes[1] = "10.9.0.0/16".to_string();
    let params = parse_auth_ok(&ok).unwrap();
    assert_eq!(params.assigned_ip, Ipv4Addr::new(10, 0, 0, 2));
    assert_eq!(
        params.routes,
        vec![
            Ipv4Net::new_assert(Ipv4Addr::new(192, 168, 7, 9), 24),
            Ipv4Net::new_assert(Ipv4Addr::new(10, 9, 0, 0), 16),
        ]
    );
}

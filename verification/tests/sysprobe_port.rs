use vpn::sysprobe::port::{
    format_ipv4, parse_addr_port, parse_proc_line, parse_proc_net, ports_of_tables,
    table_reads_whole, tcp_state_name,
};

#[test]
fn test_format_ipv4_normal_returns_dotted_decimal() {
    assert_eq!(format_ipv4("0100007F"), "127.0.0.1");
}

#[test]
fn test_format_ipv4_empty_returns_empty() {
    assert_eq!(format_ipv4(""), "");
}

#[test]
fn test_format_ipv4_invalid_hex_returns_original() {
    assert_eq!(format_ipv4("GG"), "GG");
}

#[test]
fn format_ipv4_takes_signs_and_either_case() {
    assert_eq!(format_ipv4("+1a0B0Cf"), "207.176.160.1");
}

#[test]
fn format_ipv4_keeps_what_is_not_four_numbers() {
    assert_eq!(format_ipv4("0100"), "0100");
    assert_eq!(format_ipv4("0100007F00"), "0100007F00");
    assert_eq!(format_ipv4("éééé"), "éééé");
}

#[test]
fn test_parse_addr_port_normal_returns_addr_port() {
    assert_eq!(
        parse_addr_port("0100007F:0050"),
        Some(("127.0.0.1".to_string(), 80))
    );
}

#[test]
fn test_parse_addr_port_no_colon_returns_none() {
    assert_eq!(parse_addr_port("0100007F0050"), None);
}

#[test]
fn test_parse_addr_port_invalid_port_hex_returns_none() {
    assert_eq!(parse_addr_port("0100007F:ZZ"), None);
}

#[test]
fn parse_addr_port_other_forms() {
    assert_eq!(
        parse_addr_port("00000000000000000000000001000000:1F90"),
        Some(("::00000000000000000000000001000000".to_string(), 8080))
    );
    assert_eq!(parse_addr_port(":50"), Some(("::".to_string(), 80)));
    assert_eq!(parse_addr_port("0100007F:"), None);
    assert_eq!(parse_addr_port("0100007F:+50"), Some(("127.0.0.1".to_string(), 80)));
    assert_eq!(parse_addr_port("0100007F:-50"), None);
    assert_eq!(parse_addr_port("a:FFFFFFFF"), Some(("::a".to_string(), u32::MAX)));
    assert_eq!(parse_addr_port("a:100000000"), None);
    assert_eq!(parse_addr_port("a:0000000000000001"), Some(("::a".to_string(), 1)));
    assert_eq!(parse_addr_port("0100007F:50:60"), None);
}

#[test]
fn test_tcp_state_name_listen_returns_listen() {
    assert_eq!(tcp_state_name("0A"), "LISTEN");
}

#[test]
fn test_tcp_state_name_established_returns_established() {
    assert_eq!(tcp_state_name("01"), "ESTABLISHED");
}

#[test]
fn test_tcp_state_name_unknown_returns_lowercase() {
    assert_eq!(tcp_state_name("ZZ"), "zz");
}

#[test]
fn tcp_state_name_time_wait() {
    assert_eq!(tcp_state_name("06"), "TIME_WAIT");
    assert_eq!(tcp_state_name("0a"), "0a");
    assert_eq!(tcp_state_name("ÄB"), "äb");
}

#[test]
fn test_parse_proc_line_listen_returns_entry() {
    let line = "  0: 0100007F:1F90 00000000:0000 0A 00000000:00000000";
    let entry = parse_proc_line(line, "tcp").expect("entry");
    assert_eq!(entry.proto, "tcp");
    assert_eq!(entry.local_addr, "127.0.0.1");
    assert_eq!(entry.local_port, 8080);
    assert_eq!(entry.state, "LISTEN");
    assert_eq!(entry.pid, 0);
}

#[test]
fn test_parse_proc_line_empty_returns_none() {
    assert_eq!(parse_proc_line("", "tcp"), None);
}

#[test]
fn test_parse_proc_line_single_column_returns_none() {
    assert_eq!(parse_proc_line("foo", "tcp"), None);
}

#[test]
fn parse_proc_line_without_state_has_state_zero() {
    let entry = parse_proc_line("0: 0100007F:0035", "udp").expect("entry");
    assert_eq!(entry.state, "00");
    assert_eq!(entry.local_port, 53);
    assert_eq!(entry.proto, "udp");
}

#[test]
fn parse_proc_line_splits_at_any_space() {
    let entry = parse_proc_line("0:\t0100007F:0035\u{3000}x\u{a0}06\r", "tcp").expect("entry");
    assert_eq!(entry.state, "TIME_WAIT");
}

#[test]
fn test_parse_proc_net_listen_row_returns_one_entry() {
    let content = "  sl  local_address rem_address\n  0: 0100007F:1F90 00000000:0000 0A\n";
    let entries = parse_proc_net(content, "tcp");
    assert_eq!(entries.len(), 1);
    assert_eq!(entries[0].proto, "tcp");
    assert_eq!(entries[0].local_addr, "127.0.0.1");
    assert_eq!(entries[0].local_port, 8080);
    assert_eq!(entries[0].state, "LISTEN");
}

#[test]
fn test_parse_proc_net_empty_returns_empty_vec() {
    assert!(parse_proc_net("", "tcp").is_empty());
}

#[test]
fn test_parse_proc_net_header_only_returns_empty_vec() {
    let content = "  sl  local_address rem_address\n";
    assert!(parse_proc_net(content, "tcp").is_empty());
}

#[test]
fn parse_proc_net_passes_over_what_it_cannot_read() {
    let content = "head\r\n0: 0100007F:0001 x 01\r\n\nnonsense\n1: a:0002 x 06\n2: 0100007F:0003 x 0A";
    let entries = parse_proc_net(content, "tcp");
    let ports: Vec<u32> = entries.iter().map(|e| e.local_port).collect();
    assert_eq!(ports, vec![1, 2, 3]);
    let states: Vec<&str> = entries.iter().map(|e| e.state.as_str()).collect();
    assert_eq!(states, vec!["ESTABLISHED", "TIME_WAIT", "LISTEN"]);
}

#[test]
fn tables_that_would_cut_a_character() {
    assert!(table_reads_whole("head\n0: 0100007F:0001 x 01\n"));
    assert!(table_reads_whole(""));
    assert!(table_reads_whole("0: aééé1:1\n"));
    assert!(!table_reads_whole("head\n0: aééé1:1\n"));
    assert!(table_reads_whole("head\n0: aééé1:z\n"));
    assert!(table_reads_whole("head\n0: éééé:1\n"));
}

#[test]
fn all_four_tables_in_order() {
    let table = |port: &str| Some(format!("head\n0: 0100007F:{port} x 0A\n"));
    let list = ports_of_tables(&table("0001"), &table("0002"), &None, &table("0004"));
    let got: Vec<(&str, u32)> =
        list.ports.iter().map(|p| (p.proto.as_str(), p.local_port)).collect();
    assert_eq!(got, vec![("tcp", 1), ("tcp", 2), ("udp", 4)]);
}

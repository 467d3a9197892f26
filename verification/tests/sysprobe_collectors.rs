use vpn::sysprobe::collector::{
    assemble_report, epoch_ms, CollectError, Collector, CollectorRegistry,
};
use vpn::sysprobe::collectors::{
    disk_entry, netif_entry, process_entry, process_summary, snapshot_of, sort_top_by_cpu,
    DiskCollector, InterfaceAddr, NetifCollector, PortCollector, ProcessFullCollector,
    ProcessSummaryCollector,
};
use vpn::sysprobe::proto::{
    DiskInfo, InfoKind, InfoSnapshot, NetifList, Payload, PortList, ProcessEntry, ProcessList,
    ProcessSummary, TelemetryReport,
};
use vpn::time::{Duration, Instant};

#[derive(Debug)]
struct MockCollector {
    kind: InfoKind,
    cadence: Option<Duration>,
    fail: bool,
}

impl MockCollector {
    fn new(kind: InfoKind, cadence: Option<Duration>) -> Self {
        Self { kind, cadence, fail: false }
    }

    fn failing(kind: InfoKind) -> Self {
        Self { kind, cadence: None, fail: true }
    }

    fn collect(&self) -> Result<InfoSnapshot, CollectError> {
        if self.fail {
            return Err(CollectError::Io("mock failure".into()));
        }
        Ok(InfoSnapshot { kind: self.kind.as_i32(), payload: None })
    }
}

impl Collector for MockCollector {
    fn the_kind(&self) -> InfoKind {
        self.kind
    }

    fn the_cadence(&self) -> Option<Duration> {
        self.cadence
    }

    fn kind(&self) -> InfoKind {
        self.kind
    }

    fn cadence(&self) -> Option<Duration> {
        self.cadence
    }
}

fn t0() -> Instant {
    Instant::from_nanos(1_000_000_000_000)
}

fn after(secs: u64) -> Instant {
    t0().checked_add(Duration::from_secs(secs)).unwrap()
}

#[test]
fn test_collector_cadence_none_signifies_pull_only() {
    let c = MockCollector::new(InfoKind::DiskInfo, None);
    assert!(c.cadence().is_none());
}

#[test]
fn test_collector_cadence_some_signifies_periodic_push() {
    let c = MockCollector::new(InfoKind::ProcessSummary, Some(Duration::from_secs(30)));
    assert_eq!(c.cadence(), Some(Duration::from_secs(30)));
}

#[test]
fn test_registry_get_after_register_returns_collector() {
    let mut reg = CollectorRegistry::new();
    reg.register(MockCollector::new(InfoKind::PortList, Some(Duration::from_secs(60))), t0());
    let c = reg.get(InfoKind::PortList);
    assert!(c.is_some());
    assert_eq!(c.unwrap().kind(), InfoKind::PortList);
}

#[test]
fn test_registry_get_unregistered_kind_returns_none() {
    let reg: CollectorRegistry<MockCollector> = CollectorRegistry::new();
    assert!(reg.get(InfoKind::DiskInfo).is_none());
}

#[test]
fn test_registry_duplicate_kind_overrides_previous() {
    let mut reg = CollectorRegistry::new();
    reg.register(MockCollector::new(InfoKind::ProcessSummary, Some(Duration::from_secs(30))), t0());
    reg.register(MockCollector::new(InfoKind::ProcessSummary, Some(Duration::from_secs(15))), t0());
    let kinds = reg.kinds();
    assert_eq!(kinds.len(), 1);
    let c = reg.get(InfoKind::ProcessSummary).unwrap();
    assert_eq!(c.cadence(), Some(Duration::from_secs(15)));
}

#[test]
fn test_registry_kinds_returns_all_registered() {
    let mut reg = CollectorRegistry::new();
    register_three(&mut reg);
    let mut kinds = reg.kinds();
    kinds.sort();
    assert_eq!(
        kinds,
        vec![InfoKind::ProcessSummary, InfoKind::PortList, InfoKind::NetifList]
    );
}

fn register_three(reg: &mut CollectorRegistry<MockCollector>) {
    reg.register(MockCollector::new(InfoKind::ProcessSummary, Some(Duration::from_secs(30))), t0());
    reg.register(MockCollector::new(InfoKind::PortList, Some(Duration::from_secs(60))), t0());
    reg.register(MockCollector::new(InfoKind::NetifList, Some(Duration::from_secs(600))), t0());
}

fn collect(reg: &CollectorRegistry<MockCollector>, kinds: &[InfoKind]) -> TelemetryReport {
    let plan = reg.collect_plan(kinds);
    let results = plan.iter().map(|k| reg.get(*k).unwrap().collect()).collect();
    assemble_report(epoch_ms(Some(Duration::from_millis(77))), results)
}

#[test]
fn test_collector_kind_matches_collect_output_kind() {
    let c = MockCollector::new(InfoKind::ProcessSummary, Some(Duration::from_secs(30)));
    let snapshot = c.collect().unwrap();
    assert_eq!(snapshot.kind, InfoKind::ProcessSummary.as_i32());
    assert_eq!(c.kind(), InfoKind::ProcessSummary);
}

#[test]
fn test_collect_by_kinds_produces_snapshots_for_registered_kinds() {
    let mut reg = CollectorRegistry::new();
    reg.register(MockCollector::new(InfoKind::ProcessSummary, Some(Duration::from_secs(30))), t0());
    reg.register(MockCollector::new(InfoKind::PortList, Some(Duration::from_secs(60))), t0());
    let report = collect(&reg, &[InfoKind::ProcessSummary, InfoKind::PortList]);
    assert_eq!(report.items.len(), 2);
    assert_eq!(report.items[0].kind, InfoKind::ProcessSummary.as_i32());
    assert_eq!(report.items[1].kind, InfoKind::PortList.as_i32());
    assert!(report.ts_ms > 0);
}

#[test]
fn test_collect_by_kinds_skips_failing_collector_keeps_others() {
    let mut reg = CollectorRegistry::new();
    reg.register(MockCollector::new(InfoKind::ProcessSummary, Some(Duration::from_secs(30))), t0());
    reg.register(MockCollector::failing(InfoKind::PortList), t0());
    let report = collect(&reg, &[InfoKind::ProcessSummary, InfoKind::PortList]);
    assert_eq!(report.items.len(), 1);
    assert_eq!(report.items[0].kind, InfoKind::ProcessSummary.as_i32());
}

#[test]
fn test_collect_by_kinds_skips_unregistered_kind() {
    let mut reg = CollectorRegistry::new();
    reg.register(MockCollector::new(InfoKind::ProcessSummary, Some(Duration::from_secs(30))), t0());
    let report = collect(&reg, &[InfoKind::ProcessSummary, InfoKind::DiskInfo]);
    assert_eq!(report.items.len(), 1);
    assert_eq!(report.items[0].kind, InfoKind::ProcessSummary.as_i32());
}

#[test]
fn test_collect_by_kinds_empty_kinds_returns_empty_items() {
    let mut reg = CollectorRegistry::new();
    reg.register(MockCollector::new(InfoKind::ProcessSummary, Some(Duration::from_secs(30))), t0());
    let report = collect(&reg, &[]);
    assert!(report.items.is_empty());
    assert!(report.ts_ms > 0);
}

#[test]
fn kinds_are_collected_as_often_as_they_are_asked_for() {
    let mut reg = CollectorRegistry::new();
    register_three(&mut reg);
    let plan = reg.collect_plan(&[
        InfoKind::PortList,
        InfoKind::DiskInfo,
        InfoKind::ProcessSummary,
        InfoKind::PortList,
    ]);
    assert_eq!(plan, vec![InfoKind::PortList, InfoKind::ProcessSummary, InfoKind::PortList]);
}

#[test]
fn test_push_due_before_cadence_returns_empty() {
    let mut reg = CollectorRegistry::new();
    reg.register_at(
        MockCollector::new(InfoKind::ProcessSummary, Some(Duration::from_secs(30))),
        t0(),
    );
    let due = reg.push_due(after(10));
    assert!(due.is_empty());
}

#[test]
fn test_push_due_at_cadence_returns_kind() {
    let mut reg = CollectorRegistry::new();
    reg.register_at(
        MockCollector::new(InfoKind::ProcessSummary, Some(Duration::from_secs(30))),
        t0(),
    );
    let due = reg.push_due(after(30));
    assert_eq!(due, vec![InfoKind::ProcessSummary]);
}

#[test]
fn test_push_due_after_mark_pushed_restarts_timer() {
    let mut reg = CollectorRegistry::new();
    reg.register_at(
        MockCollector::new(InfoKind::ProcessSummary, Some(Duration::from_secs(30))),
        t0(),
    );
    reg.mark_pushed(InfoKind::ProcessSummary, after(30));
    let due = reg.push_due(after(50));
    assert!(due.is_empty());
    assert_eq!(reg.push_due(after(60)), vec![InfoKind::ProcessSummary]);
}

#[test]
fn test_push_due_never_returns_pull_only_collector() {
    let mut reg = CollectorRegistry::new();
    reg.register_at(MockCollector::new(InfoKind::DiskInfo, None), t0());
    let due = reg.push_due(after(3600));
    assert!(due.is_empty());
}

#[test]
fn push_due_returns_each_kind_once() {
    let mut reg = CollectorRegistry::default();
    register_three(&mut reg);
    let mut due = reg.push_due(after(60));
    due.sort();
    assert_eq!(due, vec![InfoKind::ProcessSummary, InfoKind::PortList]);
}

#[test]
fn marking_a_kind_without_a_collector_makes_nothing_due() {
    let mut reg: CollectorRegistry<MockCollector> = CollectorRegistry::new();
    reg.mark_pushed(InfoKind::PortList, t0());
    assert!(reg.push_due(after(100)).is_empty());
    assert!(reg.kinds().is_empty());
}

#[test]
fn epoch_ms_counts_whole_milliseconds() {
    assert_eq!(epoch_ms(None), 0);
    assert_eq!(epoch_ms(Some(Duration::from_nanos(1_999_999))), 1);
    assert_eq!(epoch_ms(Some(Duration::from_secs(1_700_000_000))), 1_700_000_000_000);
    assert_eq!(epoch_ms(Some(Duration { nanos: u128::MAX })), 0);
}

#[test]
fn collect_error_messages() {
    let what = || "x".to_string();
    assert_eq!(CollectError::Io(what()).message(), "I/O error during collection: x");
    assert_eq!(CollectError::System(what()).message(), "system API error during collection: x");
    assert_eq!(
        CollectError::NotSupported(what()).message(),
        "collection not supported on this platform: x"
    );
}

#[test]
fn the_five_collectors() {
    let c = ProcessSummaryCollector::new();
    assert_eq!(c.kind(), InfoKind::ProcessSummary);
    assert_eq!(c.cadence(), Some(Duration::from_secs(30)));
    let c = ProcessFullCollector::new();
    assert_eq!(c.kind(), InfoKind::ProcessList);
    assert_eq!(c.cadence(), Some(Duration::from_secs(300)));
    let c = PortCollector::new();
    assert_eq!(c.kind(), InfoKind::PortList);
    assert_eq!(c.cadence(), Some(Duration::from_secs(60)));
    let c = NetifCollector::new();
    assert_eq!(c.kind(), InfoKind::NetifList);
    assert_eq!(c.cadence(), Some(Duration::from_secs(600)));
    let c = DiskCollector::new();
    assert_eq!(c.kind(), InfoKind::DiskInfo);
    assert_eq!(c.cadence(), None);
    assert_eq!(PortCollector::default(), PortCollector::new());
}

#[test]
fn snapshots_carry_the_number_of_their_kind() {
    let cases = [
        (
            Payload::ProcessSummary(ProcessSummary { count: 0, top_by_cpu: vec![] }),
            InfoKind::ProcessSummary,
        ),
        (Payload::Processes(ProcessList { processes: vec![] }), InfoKind::ProcessList),
        (Payload::Ports(PortList { ports: vec![] }), InfoKind::PortList),
        (Payload::Interfaces(NetifList { interfaces: vec![] }), InfoKind::NetifList),
        (Payload::Disks(DiskInfo { disks: vec![] }), InfoKind::DiskInfo),
    ];
    for (payload, kind) in cases {
        let s = snapshot_of(Ok(payload.clone())).unwrap();
        assert_eq!(s.kind, kind.as_i32());
        assert_eq!(s.payload, Some(payload));
        assert_eq!(InfoKind::from_i32(s.kind), Some(kind));
    }
    assert_eq!(InfoKind::from_i32(99), None);
    assert_eq!(
        snapshot_of(Err("boom".to_string())),
        Err(CollectError::System("join error: boom".to_string()))
    );
}

#[test]
fn disk_parts() {
    let d = disk_entry("/".to_string(), "ext4".to_string(), 1_000_000, 600_000);
    assert_eq!((d.total_bytes, d.used_bytes, d.free_bytes), (1_000_000, 400_000, 600_000));
    assert_eq!((d.mount_point.as_str(), d.fs_type.as_str()), ("/", "ext4"));
    let d = disk_entry("/".to_string(), "ext4".to_string(), 10, 11);
    assert_eq!((d.used_bytes, d.free_bytes), (0, 11));
}

#[test]
fn interfaces_sort_their_addresses() {
    let addr = |is_ipv4: bool, text: &str| InterfaceAddr { is_ipv4, text: text.to_string() };
    let addrs = vec![addr(true, "10.0.0.1"), addr(false, "fe80::1"), addr(true, "10.0.0.2")];
    let n = netif_entry("eth0".to_string(), "aa:bb".to_string(), &addrs, true, 1500);
    assert_eq!(n.ipv4_addrs, vec!["10.0.0.1", "10.0.0.2"]);
    assert_eq!(n.ipv6_addrs, vec!["fe80::1"]);
    assert_eq!((n.name.as_str(), n.mac.as_str(), n.is_up, n.mtu), ("eth0", "aa:bb", true, 1500));
    let n = netif_entry("lo".to_string(), String::new(), &vec![], false, 1 << 32);
    assert_eq!(n.mtu, 0);
}

fn process(pid: u32, cpu: f32) -> ProcessEntry {
    process_entry(pid, format!("p{pid}"), cpu.to_bits(), 2048 * u64::from(pid))
}

#[test]
fn processes_are_sorted_by_how_busy_they_are() {
    let mut list = vec![
        process(1, 0.5),
        process(2, 12.5),
        process(3, -1.0),
        process(4, 12.5),
        process(5, 0.0),
        process(6, -0.0),
        process(7, 99.9),
        process(8, f32::INFINITY),
    ];
    let mut want = list.clone();
    want.sort_by(|a, b| {
        f32::from_bits(b.cpu_bits).partial_cmp(&f32::from_bits(a.cpu_bits)).unwrap()
    });
    sort_top_by_cpu(&mut list, 100);
    assert_eq!(list, want);
    let pids: Vec<u32> = list.iter().map(|p| p.pid).collect();
    assert_eq!(pids, vec![8, 7, 2, 4, 1, 5, 6, 3]);
    sort_top_by_cpu(&mut list, 3);
    let pids: Vec<u32> = list.iter().map(|p| p.pid).collect();
    assert_eq!(pids, vec![8, 7, 2]);
    assert_eq!(list[2].mem_kb, 4);
}

#[test]
fn summary_has_five_processes_at_most() {
    let list: Vec<ProcessEntry> = (1..=9).map(|i| process(i, i as f32)).collect();
    let s = process_summary(list);
    assert_eq!(s.count, 9);
    let pids: Vec<u32> = s.top_by_cpu.iter().map(|p| p.pid).collect();
    assert_eq!(pids, vec![9, 8, 7, 6, 5]);
}

#[test]
fn registered_kind_comes_due() {
    let mut reg = CollectorRegistry::new();
    let rests = Duration::from_secs(30);
    reg.register_at(MockCollector::new(InfoKind::PortList, Some(rests)), t0());
    assert!(reg.can_reckon());
    assert!(reg.push_due(after(29)).is_empty());
    assert_eq!(reg.push_due(after(30)), vec![InfoKind::PortList]);
}

#[test]
fn deadlines_past_the_end_of_the_clock_are_noticed() {
    let mut reg = CollectorRegistry::new();
    let late = Instant::from_nanos(u128::MAX - 5);
    reg.register_at(MockCollector::new(InfoKind::DiskInfo, None), late);
    assert!(reg.can_reckon());
    let rests = Duration::from_nanos(5);
    reg.register_at(MockCollector::new(InfoKind::PortList, Some(rests)), late);
    assert!(reg.can_reckon());
    let rests = Duration::from_nanos(6);
    reg.register_at(MockCollector::new(InfoKind::NetifList, Some(rests)), late);
    assert!(!reg.can_reckon());
}

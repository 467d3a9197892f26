//! The collectors that come with the library, and how what the system shows becomes telemetry.
use vstd::prelude::*;

use crate::sysprobe::collector::{CollectError, Collector};
use crate::sysprobe::proto::{
    DiskEntry, InfoKind, InfoSnapshot, NetifEntry, Payload, ProcessEntry, ProcessSummary,
};
use crate::text;
use crate::time;
use crate::time::Duration;

verus! {

pub const SUMMARY_TOP_N: usize = 5;

pub const SUMMARY_CADENCE_SECS: u64 = 30;

pub const FULL_CADENCE_SECS: u64 = 300;

pub const PORT_CADENCE_SECS: u64 = 60;

pub const NETIF_CADENCE_SECS: u64 = 600;

/// A span of whole seconds.
pub open spec fn seconds(secs: u64) -> Duration {
    Duration { nanos: (secs * time::NANOS_PER_SEC) as u128 }
}

/// How many processes run, and which take most of the processor.
#[derive(Debug, Clone, Copy, PartialEq, Eq, Structural)]
pub struct ProcessSummaryCollector;

/// All processes.
#[derive(Debug, Clone, Copy, PartialEq, Eq, Structural)]
pub struct ProcessFullCollector;

/// The open ports.
#[derive(Debug, Clone, Copy, PartialEq, Eq, Structural)]
pub struct PortCollector;

/// The network interfaces.
#[derive(Debug, Clone, Copy, PartialEq, Eq, Structural)]
pub struct NetifCollector;

/// The mounted file systems.
#[derive(Debug, Clone, Copy, PartialEq, Eq, Structural)]
pub struct DiskCollector;

impl ProcessSummaryCollector {
    pub fn new() -> (c: ProcessSummaryCollector)
        ensures
            c == ProcessSummaryCollector,
    {
        ProcessSummaryCollector
    }
}

impl ProcessFullCollector {
    pub fn new() -> (c: ProcessFullCollector)
        ensures
            c == ProcessFullCollector,
    {
        ProcessFullCollector
    }
}

impl PortCollector {
    pub fn new() -> (c: PortCollector)
        ensures
            c == PortCollector,
    {
        PortCollector
    }
}

impl NetifCollector {
    pub fn new() -> (c: NetifCollector)
        ensures
            c == NetifCollector,
    {
        NetifCollector
    }
}

impl DiskCollector {
    pub fn new() -> (c: DiskCollector)
        ensures
            c == DiskCollector,
    {
        DiskCollector
    }
}

impl Default for ProcessSummaryCollector {
    fn default() -> (c: ProcessSummaryCollector)
        ensures
            c == ProcessSummaryCollector,
    {
        ProcessSummaryCollector
    }
}

impl Default for ProcessFullCollector {
    fn default() -> (c: ProcessFullCollector)
        ensures
            c == ProcessFullCollector,
    {
        ProcessFullCollector
    }
}

impl Default for PortCollector {
    fn default() -> (c: PortCollector)
        ensures
            c == PortCollector,
    {
        PortCollector
    }
}

impl Default for NetifCollector {
    fn default() -> (c: NetifCollector)
        ensures
            c == NetifCollector,
    {
        NetifCollector
    }
}

impl Default for DiskCollector {
    fn default() -> (c: DiskCollector)
        ensures
            c == DiskCollector,
    {
        DiskCollector
    }
}

impl Collector for ProcessSummaryCollector {
    open spec fn the_kind(&self) -> InfoKind {
        InfoKind::ProcessSummary
    }

    open spec fn the_cadence(&self) -> Option<Duration> {
        Some(seconds(SUMMARY_CADENCE_SECS))
    }

    fn kind(&self) -> (k: InfoKind) {
        InfoKind::ProcessSummary
    }

    fn cadence(&self) -> (c: Option<Duration>) {
        Some(Duration::from_secs(SUMMARY_CADENCE_SECS))
    }
}

impl Collector for ProcessFullCollector {
    open spec fn the_kind(&self) -> InfoKind {
        InfoKind::ProcessList
    }

    open spec fn the_cadence(&self) -> Option<Duration> {
        Some(seconds(FULL_CADENCE_SECS))
    }

    fn kind(&self) -> (k: InfoKind) {
        InfoKind::ProcessList
    }

    fn cadence(&self) -> (c: Option<Duration>) {
        Some(Duration::from_secs(FULL_CADENCE_SECS))
    }
}

impl Collector for PortCollector {
    open spec fn the_kind(&self) -> InfoKind {
        InfoKind::PortList
    }

    open spec fn the_cadence(&self) -> Option<Duration> {
        Some(seconds(PORT_CADENCE_SECS))
    }

    fn kind(&self) -> (k: InfoKind) {
        InfoKind::PortList
    }

    fn cadence(&self) -> (c: Option<Duration>) {
        Some(Duration::from_secs(PORT_CADENCE_SECS))
    }
}

impl Collector for NetifCollector {
    open spec fn the_kind(&self) -> InfoKind {
        InfoKind::NetifList
    }

    open spec fn the_cadence(&self) -> Option<Duration> {
        Some(seconds(NETIF_CADENCE_SECS))
    }

    fn kind(&self) -> (k: InfoKind) {
        InfoKind::NetifList
    }

    fn cadence(&self) -> (c: Option<Duration>) {
        Some(Duration::from_secs(NETIF_CADENCE_SECS))
    }
}

impl Collector for DiskCollector {
    open spec fn the_kind(&self) -> InfoKind {
        InfoKind::DiskInfo
    }

    open spec fn the_cadence(&self) -> Option<Duration> {
        None
    }

    fn kind(&self) -> (k: InfoKind) {
        InfoKind::DiskInfo
    }

    fn cadence(&self) -> (c: Option<Duration>) {
        None
    }
}

/// Any of the collectors that come with the library.
#[derive(Debug, Clone, Copy, PartialEq, Eq, Structural)]
pub enum SystemCollector {
    ProcessSummary(ProcessSummaryCollector),
    ProcessFull(ProcessFullCollector),
    Port(PortCollector),
    Netif(NetifCollector),
    Disk(DiskCollector),
}

impl Collector for SystemCollector {
    open spec fn the_kind(&self) -> InfoKind {
        match self {
            SystemCollector::ProcessSummary(c) => c.the_kind(),
            SystemCollector::ProcessFull(c) => c.the_kind(),
            SystemCollector::Port(c) => c.the_kind(),
            SystemCollector::Netif(c) => c.the_kind(),
            SystemCollector::Disk(c) => c.the_kind(),
        }
    }

    open spec fn the_cadence(&self) -> Option<Duration> {
        match self {
            SystemCollector::ProcessSummary(c) => c.the_cadence(),
            SystemCollector::ProcessFull(c) => c.the_cadence(),
            SystemCollector::Port(c) => c.the_cadence(),
            SystemCollector::Netif(c) => c.the_cadence(),
            SystemCollector::Disk(c) => c.the_cadence(),
        }
    }

    fn kind(&self) -> (k: InfoKind) {
        match self {
            SystemCollector::ProcessSummary(c) => c.kind(),
            SystemCollector::ProcessFull(c) => c.kind(),
            SystemCollector::Port(c) => c.kind(),
            SystemCollector::Netif(c) => c.kind(),
            SystemCollector::Disk(c) => c.kind(),
        }
    }

    fn cadence(&self) -> (c: Option<Duration>) {
        match self {
            SystemCollector::ProcessSummary(c) => c.cadence(),
            SystemCollector::ProcessFull(c) => c.cadence(),
            SystemCollector::Port(c) => c.cadence(),
            SystemCollector::Netif(c) => c.cadence(),
            SystemCollector::Disk(c) => c.cadence(),
        }
    }
}

/// The kind of what was gathered.
pub open spec fn payload_kind(payload: Payload) -> InfoKind {
    match payload {
        Payload::ProcessSummary(_) => InfoKind::ProcessSummary,
        Payload::Processes(_) => InfoKind::ProcessList,
        Payload::Ports(_) => InfoKind::PortList,
        Payload::Interfaces(_) => InfoKind::NetifList,
        Payload::Disks(_) => InfoKind::DiskInfo,
    }
}

/// What a collector hands over once the task that gathered it has ended: a snapshot under the
/// number of its kind, or that the task did not end well.
pub fn snapshot_of(joined: Result<Payload, String>) -> (r: Result<InfoSnapshot, CollectError>)
    ensures
        match joined {
            Ok(payload) => r == Ok::<InfoSnapshot, CollectError>(
                (InfoSnapshot { kind: payload_kind(payload).number(), payload: Some(payload) }),
            ),
            Err(e) => match r {
                Err(CollectError::System(what)) => what@ == "join error: "@ + e@,
                _ => false,
            },
        },
{
    match joined {
        Ok(payload) => {
            let kind = match &payload {
                Payload::ProcessSummary(_) => InfoKind::ProcessSummary,
                Payload::Processes(_) => InfoKind::ProcessList,
                Payload::Ports(_) => InfoKind::PortList,
                Payload::Interfaces(_) => InfoKind::NetifList,
                Payload::Disks(_) => InfoKind::DiskInfo,
            };
            Ok(InfoSnapshot { kind: kind.as_i32(), payload: Some(payload) })
        },
        Err(e) => Err(CollectError::System(text::join2("join error: ", e.as_str()))),
    }
}

/// A process, from its memory in bytes.
pub fn process_entry(pid: u32, name: String, cpu_bits: u32, memory: u64) -> (r: ProcessEntry)
    ensures
        r == (ProcessEntry { pid, name, cpu_bits, mem_kb: memory / 1024 }),
{
    ProcessEntry { pid, name, cpu_bits, mem_kb: memory / 1024 }
}

/// A mounted file system: what is not free is in use.
pub fn disk_entry(mount_point: String, fs_type: String, total: u64, available: u64) -> (r:
    DiskEntry)
    ensures
        r.mount_point == mount_point,
        r.fs_type == fs_type,
        r.total_bytes == total,
        r.used_bytes == if available <= total {
            total - available
        } else {
            0
        },
        r.free_bytes == available,
{
    DiskEntry {
        mount_point,
        fs_type,
        total_bytes: total,
        used_bytes: total.saturating_sub(available),
        free_bytes: available,
    }
}

/// What is in use and what is free make up the whole, unless more is free than there is.
pub proof fn law_disk_parts_make_up_the_whole(d: DiskEntry)
    requires
        d.used_bytes == if d.free_bytes <= d.total_bytes {
            d.total_bytes - d.free_bytes
        } else {
            0
        },
    ensures
        d.free_bytes <= d.total_bytes ==> d.used_bytes + d.free_bytes == d.total_bytes,
        d.used_bytes <= d.total_bytes,
{
}

/// An address of an interface.
#[derive(Debug, Clone, PartialEq, Eq)]
pub struct InterfaceAddr {
    pub is_ipv4: bool,
    pub text: String,
}

/// The texts of the addresses of one family.
pub open spec fn addrs_of(addrs: Seq<InterfaceAddr>, is_ipv4: bool) -> Seq<Seq<char>> {
    addrs.filter(|a: InterfaceAddr| a.is_ipv4 == is_ipv4).map_values(|a: InterfaceAddr| a.text@)
}

/// The views of texts.
pub open spec fn string_texts(v: Seq<String>) -> Seq<Seq<char>> {
    v.map_values(|t: String| t@)
}

fn family_addrs(addrs: &Vec<InterfaceAddr>, is_ipv4: bool) -> (r: Vec<String>)
    ensures
        string_texts(r@) == addrs_of(addrs@, is_ipv4),
{
    let ghost p = |a: InterfaceAddr| a.is_ipv4 == is_ipv4;
    let ghost t = |a: InterfaceAddr| a.text@;
    let mut r: Vec<String> = Vec::new();
    let mut i: usize = 0;
    proof {
        reveal(Seq::filter);
        assert(string_texts(r@) =~= addrs@.take(0).filter(p).map_values(t));
    }
    while i < addrs.len()
        invariant
            p == (|a: InterfaceAddr| a.is_ipv4 == is_ipv4),
            t == (|a: InterfaceAddr| a.text@),
            i <= addrs@.len(),
            string_texts(r@) == addrs@.take(i as int).filter(p).map_values(t),
        decreases addrs@.len() - i,
    {
        let ghost before = string_texts(r@);
        let ghost kept = addrs@.take(i as int).filter(p);
        proof {
            assert(addrs@.take(i + 1).drop_last() =~= addrs@.take(i as int));
            reveal(Seq::filter);
        }
        if addrs[i].is_ipv4 == is_ipv4 {
            let s = addrs[i].text.clone();
            r.push(s);
            proof {
                assert(string_texts(r@) =~= before.push(s@));
                assert(kept.push(addrs@[i as int]).map_values(t) =~= kept.map_values(t).push(s@));
            }
        }
        i = i + 1;
    }
    assert(addrs@.take(i as int) =~= addrs@);
    r
}

/// The IPv4 addresses of an interface.
pub fn ipv4_addrs(addrs: &Vec<InterfaceAddr>) -> (r: Vec<String>)
    ensures
        string_texts(r@) == addrs_of(addrs@, true),
{
    family_addrs(addrs, true)
}

/// The IPv6 addresses of an interface.
pub fn ipv6_addrs(addrs: &Vec<InterfaceAddr>) -> (r: Vec<String>)
    ensures
        string_texts(r@) == addrs_of(addrs@, false),
{
    family_addrs(addrs, false)
}

/// A network interface. An MTU that does not fit stands as zero.
pub fn netif_entry(
    name: String,
    mac: String,
    addrs: &Vec<InterfaceAddr>,
    is_up: bool,
    mtu: u64,
) -> (r: NetifEntry)
    ensures
        r.name == name,
        r.mac == mac,
        string_texts(r.ipv4_addrs@) == addrs_of(addrs@, true),
        string_texts(r.ipv6_addrs@) == addrs_of(addrs@, false),
        r.is_up == is_up,
        r.mtu == if mtu <= u32::MAX {
            mtu as int
        } else {
            0
        },
{
    let mtu = if mtu <= u32::MAX as u64 {
        mtu as u32
    } else {
        0
    };
    NetifEntry { name, mac, ipv4_addrs: ipv4_addrs(addrs), ipv6_addrs: ipv6_addrs(addrs), is_up, mtu }
}

/// Whether bits are those of a number, infinite or not.
pub open spec fn is_number(bits: u32) -> bool {
    bits <= 0x7f80_0000 || 0x8000_0000 <= bits <= 0xff80_0000
}

/// Where the number with these bits stands among the others. The two zeros stand together.
pub open spec fn rank(bits: u32) -> int {
    if bits < 0x8000_0000 {
        bits as int
    } else {
        0x8000_0000 - bits as int
    }
}

/// The processes of one rank, in order.
pub open spec fn of_rank(s: Seq<ProcessEntry>, k: int) -> Seq<ProcessEntry> {
    s.filter(|e: ProcessEntry| rank(e.cpu_bits) == k)
}

/// Whether no process stands behind one that takes less of the processor.
pub open spec fn busiest_first(s: Seq<ProcessEntry>) -> bool {
    forall|i: int, j: int|
        0 <= i < j < s.len() ==> rank((#[trigger] s[i]).cpu_bits) >= rank(
            (#[trigger] s[j]).cpu_bits,
        )
}

/// Whether `sorted` is `s` with the busiest processes first, those that are equally busy in the
/// order in which they stood.
pub open spec fn is_sorted_form(s: Seq<ProcessEntry>, sorted: Seq<ProcessEntry>) -> bool {
    &&& busiest_first(sorted)
    &&& sorted.len() == s.len()
    &&& forall|k: int| #[trigger] of_rank(sorted, k) == of_rank(s, k)
}

/// The first `limit` of a row, or all of it.
pub open spec fn at_most(s: Seq<ProcessEntry>, limit: int) -> Seq<ProcessEntry> {
    if limit < s.len() {
        s.take(limit)
    } else {
        s
    }
}

fn rank_of(bits: u32) -> (k: i64)
    ensures
        k == rank(bits),
{
    if bits < 0x8000_0000 {
        bits as i64
    } else {
        0x8000_0000i64 - bits as i64
    }
}

/// Moving a process forward, past others of another rank, keeps the order within each rank.
proof fn lemma_move_forward(s: Seq<ProcessEntry>, i: int, p: int, k: int)
    requires
        0 <= p <= i < s.len(),
        forall|j: int| p <= j < i ==> rank((#[trigger] s[j]).cpu_bits) != rank(s[i].cpu_bits),
    ensures
        of_rank(s.remove(i).insert(p, s[i]), k) == of_rank(s, k),
{
    let pred = |e: ProcessEntry| rank(e.cpu_bits) == k;
    let a = s.take(p);
    let m = s.subrange(p, i);
    let x = seq![s[i]];
    let b = s.skip(i + 1);
    assert(s =~= a + m + x + b);
    assert(s.remove(i).insert(p, s[i]) =~= a + x + m + b);
    Seq::filter_distributes_over_add(a + m + x, b, pred);
    Seq::filter_distributes_over_add(a + m, x, pred);
    Seq::filter_distributes_over_add(a, m, pred);
    Seq::filter_distributes_over_add(a + x + m, b, pred);
    Seq::filter_distributes_over_add(a + x, m, pred);
    Seq::filter_distributes_over_add(a, x, pred);
    if rank(s[i].cpu_bits) == k {
        m.filter_lemma(pred);
        assert(m.filter(pred) =~= Seq::<ProcessEntry>::empty()) by {
            if m.filter(pred).len() > 0 {
                lemma_filter_source(m, pred, 0);
                let j = choose|j: int| 0 <= j < m.len() && m[j] == m.filter(pred)[0];
                assert(s[p + j] == m[j]);
            }
        }
        assert(a.filter(pred) + m.filter(pred) + x.filter(pred) =~= a.filter(pred) + x.filter(pred)
            + m.filter(pred));
    } else {
        assert(x.filter(pred) =~= Seq::<ProcessEntry>::empty()) by {
            if x.filter(pred).len() > 0 {
                lemma_filter_source(x, pred, 0);
                x.filter_lemma(pred);
                let j = choose|j: int| 0 <= j < x.len() && x[j] == x.filter(pred)[0];
                assert(x[j] == s[i]);
            }
        }
        assert(a.filter(pred) + m.filter(pred) + x.filter(pred) =~= a.filter(pred) + x.filter(pred)
            + m.filter(pred));
    }
}

/// What a filter lets through was there before.
proof fn lemma_filter_source(s: Seq<ProcessEntry>, pred: spec_fn(ProcessEntry) -> bool, at: int)
    requires
        0 <= at < s.filter(pred).len(),
    ensures
        exists|j: int| 0 <= j < s.len() && s[j] == s.filter(pred)[at],
    decreases s.len(),
{
    reveal(Seq::filter);
    let rest = s.drop_last();
    if at < rest.filter(pred).len() {
        lemma_filter_source(rest, pred, at);
        let j = choose|j: int| 0 <= j < rest.len() && rest[j] == rest.filter(pred)[at];
        assert(s[j] == s.filter(pred)[at]);
    } else {
        assert(s[s.len() - 1] == s.filter(pred)[at]);
    }
}

/// Keeps the busiest processes, the busiest first and those that are equally busy in the order
/// in which they stood.
pub fn sort_top_by_cpu(processes: &mut Vec<ProcessEntry>, limit: usize)
    requires
        forall|i: int|
            0 <= i < old(processes)@.len() ==> is_number((#[trigger] old(processes)@[i]).cpu_bits),
    ensures
        exists|sorted: Seq<ProcessEntry>| #[trigger]
            is_sorted_form(old(processes)@, sorted) && final(processes)@ == at_most(
                sorted,
                limit as int,
            ),
{
    let ghost before = processes@;
    let mut i: usize = 0;
    while i < processes.len()
        invariant
            i <= processes@.len(),
            processes@.len() == before.len(),
            busiest_first(processes@.take(i as int)),
            forall|k: int| #[trigger] of_rank(processes@, k) == of_rank(before, k),
        decreases processes@.len() - i,
    {
        let ghost s = processes@;
        let k = rank_of(processes[i].cpu_bits);
        let mut p: usize = i;
        while p > 0 && rank_of(processes[p - 1].cpu_bits) < k
            invariant
                p <= i < processes@.len(),
                processes@ == s,
                k == rank(s[i as int].cpu_bits),
                forall|j: int| p <= j < i ==> rank((#[trigger] s[j]).cpu_bits) < k,
            decreases p,
        {
            p = p - 1;
        }
        let x = processes.remove(i);
        processes.insert(p, x);
        proof {
            assert forall|k: int| #[trigger] of_rank(processes@, k) == of_rank(before, k) by {
                lemma_move_forward(s, i as int, p as int, k);
                assert(of_rank(s, k) == of_rank(before, k));
            }
            let now = processes@.take(i + 1);
            let was = s.take(i as int);
            assert forall|a: int, b: int| 0 <= a < b < now.len() implies rank(
                (#[trigger] now[a]).cpu_bits,
            ) >= rank((#[trigger] now[b]).cpu_bits) by {
                // Where each of the two stood before the move.
                if a < p {
                    assert(now[a] == was[a]);
                    if b == p {
                        assert(now[b] == x);
                        if a < p - 1 {
                            assert(was[a].cpu_bits == s[a].cpu_bits);
                            assert(rank(was[a].cpu_bits) >= rank(was[p - 1].cpu_bits));
                        }
                    } else if b < p {
                        assert(now[b] == was[b]);
                    } else {
                        assert(now[b] == was[b - 1]);
                    }
                } else if a == p {
                    assert(now[a] == x);
                    assert(now[b] == s[b - 1]);
                } else {
                    assert(now[a] == was[a - 1]);
                    assert(now[b] == was[b - 1]);
                }
            }
        }
        i = i + 1;
    }
    let ghost sorted = processes@;
    proof {
        assert(processes@.take(i as int) =~= processes@);
        assert(is_sorted_form(before, sorted));
    }
    processes.truncate(limit);
    assert(processes@ =~= at_most(sorted, limit as int));
}

/// There is only one way to sort processes by how busy they are that keeps the order of those
/// that are equally busy.
pub proof fn law_sorted_form_is_unique(
    s: Seq<ProcessEntry>,
    x: Seq<ProcessEntry>,
    y: Seq<ProcessEntry>,
)
    requires
        is_sorted_form(s, x),
        is_sorted_form(s, y),
    ensures
        x == y,
{
    assert forall|k: int| #[trigger] of_rank(x, k) == of_rank(y, k) by {
        assert(of_rank(x, k) == of_rank(s, k));
        assert(of_rank(y, k) == of_rank(s, k));
    }
    lemma_same_ranks_same_row(x, y);
}

proof fn lemma_same_ranks_same_row(x: Seq<ProcessEntry>, y: Seq<ProcessEntry>)
    requires
        busiest_first(x),
        busiest_first(y),
        x.len() == y.len(),
        forall|k: int| #[trigger] of_rank(x, k) == of_rank(y, k),
    ensures
        x == y,
    decreases x.len(),
{
    reveal(Seq::filter);
    if x.len() == 0 {
        assert(x =~= y);
    } else {
        let kx = rank(x.last().cpu_bits);
        let ky = rank(y.last().cpu_bits);
        lemma_last_rank_is_lowest(x, y);
        lemma_last_rank_is_lowest(y, x);
        assert(kx == ky);
        assert(of_rank(x, kx).last() == x.last());
        assert(of_rank(y, kx).last() == y.last());
        assert(x.last() == y.last());
        let xs = x.drop_last();
        let ys = y.drop_last();
        assert forall|k: int| #[trigger] of_rank(xs, k) == of_rank(ys, k) by {
            assert(of_rank(x, k) == of_rank(y, k));
            if k == kx {
                assert(of_rank(x, k).drop_last() =~= of_rank(xs, k));
                assert(of_rank(y, k).drop_last() =~= of_rank(ys, k));
            }
        }
        lemma_same_ranks_same_row(xs, ys);
        assert(x =~= xs.push(x.last()));
        assert(y =~= ys.push(y.last()));
    }
}

proof fn lemma_last_rank_is_lowest(x: Seq<ProcessEntry>, y: Seq<ProcessEntry>)
    requires
        busiest_first(y),
        x.len() > 0,
        y.len() > 0,
        forall|k: int| #[trigger] of_rank(x, k) == of_rank(y, k),
    ensures
        rank(y.last().cpu_bits) <= rank(x.last().cpu_bits),
{
    reveal(Seq::filter);
    let k = rank(x.last().cpu_bits);
    let pred = |e: ProcessEntry| rank(e.cpu_bits) == k;
    assert(of_rank(x, k).len() > 0);
    assert(of_rank(y, k).len() > 0);
    lemma_filter_source(y, pred, 0);
    y.filter_lemma(pred);
    let j = choose|j: int| 0 <= j < y.len() && y[j] == y.filter(pred)[0];
    assert(rank(y[j].cpu_bits) == k);
    if j < y.len() - 1 {
        assert(rank(y[j].cpu_bits) >= rank(y[y.len() - 1].cpu_bits));
    }
}

/// How many processes there are, and the busiest of them.
pub fn process_summary(processes: Vec<ProcessEntry>) -> (r: ProcessSummary)
    requires
        forall|i: int|
            0 <= i < processes@.len() ==> is_number((#[trigger] processes@[i]).cpu_bits),
    ensures
        r.count == if processes@.len() <= u32::MAX {
            processes@.len() as int
        } else {
            u32::MAX as int
        },
        exists|sorted: Seq<ProcessEntry>| #[trigger]
            is_sorted_form(processes@, sorted) && r.top_by_cpu@ == at_most(
                sorted,
                SUMMARY_TOP_N as int,
            ),
{
    let n = processes.len();
    let count = if n <= u32::MAX as usize {
        n as u32
    } else {
        u32::MAX
    };
    let mut top = processes;
    sort_top_by_cpu(&mut top, SUMMARY_TOP_N);
    ProcessSummary { count, top_by_cpu: top }
}

/// What each collector gathers, and how long it rests: the summary of the processes half a
/// minute, the ports a minute, all processes five and the interfaces ten. The file systems have
/// no cadence.
pub proof fn law_each_collector_has_its_cadence(
    summary: ProcessSummaryCollector,
    full: ProcessFullCollector,
    port: PortCollector,
    netif: NetifCollector,
    disk: DiskCollector,
)
    ensures
        SystemCollector::ProcessSummary(summary).the_kind() == InfoKind::ProcessSummary,
        SystemCollector::ProcessSummary(summary).the_cadence() == Some(
            (Duration { nanos: 30_000_000_000 }),
        ),
        SystemCollector::ProcessFull(full).the_kind() == InfoKind::ProcessList,
        SystemCollector::ProcessFull(full).the_cadence() == Some(
            (Duration { nanos: 300_000_000_000 }),
        ),
        SystemCollector::Port(port).the_kind() == InfoKind::PortList,
        SystemCollector::Port(port).the_cadence() == Some((Duration { nanos: 60_000_000_000 })),
        SystemCollector::Netif(netif).the_kind() == InfoKind::NetifList,
        SystemCollector::Netif(netif).the_cadence() == Some((Duration { nanos: 600_000_000_000 })),
        SystemCollector::Disk(disk).the_kind() == InfoKind::DiskInfo,
        SystemCollector::Disk(disk).the_cadence() is None,
        SUMMARY_TOP_N == 5,
{
}

/// A collector of any kind gathers and rests as the one that it stands for.
pub proof fn law_any_collector_is_one_of_five(
    summary: ProcessSummaryCollector,
    full: ProcessFullCollector,
    port: PortCollector,
    netif: NetifCollector,
    disk: DiskCollector,
)
    ensures
        SystemCollector::ProcessSummary(summary).the_cadence() == summary.the_cadence(),
        SystemCollector::ProcessSummary(summary).the_kind() == summary.the_kind(),
        SystemCollector::ProcessFull(full).the_cadence() == full.the_cadence(),
        SystemCollector::ProcessFull(full).the_kind() == full.the_kind(),
        SystemCollector::Port(port).the_cadence() == port.the_cadence(),
        SystemCollector::Port(port).the_kind() == port.the_kind(),
        SystemCollector::Netif(netif).the_cadence() == netif.the_cadence(),
        SystemCollector::Netif(netif).the_kind() == netif.the_kind(),
        SystemCollector::Disk(disk).the_cadence() == disk.the_cadence(),
        SystemCollector::Disk(disk).the_kind() == disk.the_kind(),
{
}

/// What was gathered goes under the number of its kind: the summary of the processes under 0,
/// all processes under 1, the ports under 2, the interfaces under 3 and the file systems under 4.
pub proof fn law_what_was_gathered_has_its_number(payload: Payload)
    ensures
        payload_kind(payload).number() == match payload {
            Payload::ProcessSummary(_) => 0i32,
            Payload::Processes(_) => 1,
            Payload::Ports(_) => 2,
            Payload::Interfaces(_) => 3,
            Payload::Disks(_) => 4,
        },
{
}

/// The addresses of a family come one by one and in order: each of that family adds its text,
/// each of the other nothing.
pub proof fn law_addresses_go_by_family(addrs: Seq<InterfaceAddr>, a: InterfaceAddr)
    ensures
        addrs_of(Seq::empty(), a.is_ipv4) == Seq::<Seq<char>>::empty(),
        addrs_of(addrs.push(a), a.is_ipv4) == addrs_of(addrs, a.is_ipv4).push(a.text@),
        addrs_of(addrs.push(a), !a.is_ipv4) == addrs_of(addrs, !a.is_ipv4),
{
    reveal(Seq::filter);
    assert(addrs.push(a).drop_last() =~= addrs);
    assert(addrs_of(Seq::empty(), a.is_ipv4) =~= Seq::<Seq<char>>::empty());
    assert(addrs_of(addrs.push(a), a.is_ipv4) =~= addrs_of(addrs, a.is_ipv4).push(a.text@));
    assert(addrs_of(addrs.push(a), !a.is_ipv4) =~= addrs_of(addrs, !a.is_ipv4));
}

/// The views of texts are as many as the texts, and each is that of its text.
pub proof fn law_texts_are_seen_one_by_one(v: Seq<String>, i: int)
    requires
        0 <= i < v.len(),
    ensures
        string_texts(v).len() == v.len(),
        string_texts(v)[i] == v[i]@,
{
}

/// Bits are those of a number unless the exponent is the largest and the fraction is not zero.
pub proof fn law_numbers_by_their_bits(bits: u32)
    ensures
        is_number(bits) <==> bits % 0x8000_0000 <= 0x7f80_0000,
{
}

/// The rank of a number goes by its sign and then by its bits: of two without a sign the one with
/// the larger bits is higher, of two with a sign the lower, no number with a sign is above one
/// without, and the two zeros are of one rank.
pub proof fn law_rank_goes_by_the_bits(a: u32, b: u32)
    ensures
        a < 0x8000_0000 && b < 0x8000_0000 ==> (rank(a) < rank(b) <==> a < b),
        a >= 0x8000_0000 && b >= 0x8000_0000 ==> (rank(a) < rank(b) <==> a > b),
        a >= 0x8000_0000 && b < 0x8000_0000 ==> rank(a) <= rank(b),
        a >= 0x8000_0000 && b < 0x8000_0000 && (a != 0x8000_0000 || b != 0) ==> rank(a) < rank(b),
        rank(0) == rank(0x8000_0000),
{
}

/// Sorted processes are those that there were, each as often as before. None stands behind one
/// that takes less of the processor, and those that take the same are in the order in which they
/// were.
pub proof fn law_sorting_only_moves_processes(
    s: Seq<ProcessEntry>,
    sorted: Seq<ProcessEntry>,
    i: int,
    j: int,
    k: int,
)
    requires
        is_sorted_form(s, sorted),
    ensures
        sorted.len() == s.len(),
        sorted.to_multiset() == s.to_multiset(),
        0 <= i < j < sorted.len() ==> rank(sorted[i].cpu_bits) >= rank(sorted[j].cpu_bits),
        sorted.filter(|e: ProcessEntry| rank(e.cpu_bits) == k) == s.filter(
            |e: ProcessEntry| rank(e.cpu_bits) == k,
        ),
{
    assert forall|e: ProcessEntry| sorted.to_multiset().count(e) == s.to_multiset().count(e) by {
        let k = rank(e.cpu_bits);
        let pred = |e: ProcessEntry| rank(e.cpu_bits) == k;
        lemma_filter_keeps_count(sorted, pred, e);
        lemma_filter_keeps_count(s, pred, e);
        assert(of_rank(sorted, k) == of_rank(s, k));
    }
    assert(sorted.to_multiset() =~= s.to_multiset());
    assert(of_rank(sorted, k) == of_rank(s, k));
}

/// What a filter lets through occurs behind it as often as before it.
proof fn lemma_filter_keeps_count(
    s: Seq<ProcessEntry>,
    pred: spec_fn(ProcessEntry) -> bool,
    e: ProcessEntry,
)
    requires
        pred(e),
    ensures
        s.filter(pred).to_multiset().count(e) == s.to_multiset().count(e),
    decreases s.len(),
{
    reveal(Seq::filter);
    broadcast use vstd::seq_lib::group_to_multiset_ensures;

    if s.len() > 0 {
        let rest = s.drop_last();
        lemma_filter_keeps_count(rest, pred, e);
        assert(s =~= rest.push(s.last()));
        assert(s.to_multiset() =~= rest.to_multiset().insert(s.last()));
        if pred(s.last()) {
            assert(s.filter(pred) =~= rest.filter(pred).push(s.last()));
            assert(s.filter(pred).to_multiset() =~= rest.filter(pred).to_multiset().insert(
                s.last(),
            ));
        }
    } else {
        assert(s.filter(pred) =~= s);
    }
}

/// What is kept of a row is its beginning: as many as asked for, or all where there are fewer.
pub proof fn law_the_first_are_kept(s: Seq<ProcessEntry>, limit: int, i: int)
    requires
        0 <= limit,
    ensures
        at_most(s, limit).len() == if limit < s.len() {
            limit
        } else {
            s.len() as int
        },
        0 <= i < at_most(s, limit).len() ==> at_most(s, limit)[i] == s[i],
{
}

/// A file system's entry says how large it is and how much is free, and what is in use makes up
/// the rest; where more is free than there is, nothing is in use.
pub proof fn law_disk_entry_adds_up(
    mount_point: String,
    fs_type: String,
    total: u64,
    available: u64,
    d: DiskEntry,
)
    requires
        call_ensures(disk_entry, (mount_point, fs_type, total, available), d),
    ensures
        d.mount_point == mount_point && d.fs_type == fs_type,
        d.total_bytes == total && d.free_bytes == available,
        available <= total ==> d.used_bytes + d.free_bytes == d.total_bytes,
        available > total ==> d.used_bytes == 0,
{
}

/// A process's entry counts its memory in whole units of 1024 bytes, and keeps all else.
pub proof fn law_memory_is_counted_in_kilobytes(
    pid: u32,
    name: String,
    cpu_bits: u32,
    memory: u64,
    p: ProcessEntry,
)
    requires
        call_ensures(process_entry, (pid, name, cpu_bits, memory), p),
    ensures
        p.pid == pid && p.name == name && p.cpu_bits == cpu_bits,
        1024 * p.mem_kb <= memory < 1024 * (p.mem_kb + 1),
{
}

/// What was gathered is handed over as it is, under the number of its kind; a task that did not
/// end well hands nothing over.
pub proof fn law_snapshot_holds_what_was_gathered(
    payload: Payload,
    what: String,
    good: Result<InfoSnapshot, CollectError>,
    bad: Result<InfoSnapshot, CollectError>,
)
    requires
        call_ensures(snapshot_of, (Ok(payload),), good),
        call_ensures(snapshot_of, (Err(what),), bad),
    ensures
        good matches Ok(s) && s.payload == Some(payload) && s.kind == payload_kind(
            payload,
        ).number(),
        bad is Err,
{
}

} // verus!

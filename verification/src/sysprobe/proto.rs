//! The telemetry messages.
use vstd::prelude::*;

verus! {

/// What a piece of telemetry is about.
#[derive(Debug, Clone, Copy, PartialEq, Eq, PartialOrd, Ord, Hash, Structural)]
pub enum InfoKind {
    ProcessSummary,
    ProcessList,
    PortList,
    NetifList,
    DiskInfo,
}

impl InfoKind {
    /// The number that stands for the kind in a message.
    pub open spec fn number(self) -> i32 {
        match self {
            InfoKind::ProcessSummary => 0,
            InfoKind::ProcessList => 1,
            InfoKind::PortList => 2,
            InfoKind::NetifList => 3,
            InfoKind::DiskInfo => 4,
        }
    }

    /// The kind that a number stands for.
    pub open spec fn of_number(n: i32) -> Option<InfoKind> {
        if n == 0 {
            Some(InfoKind::ProcessSummary)
        } else if n == 1 {
            Some(InfoKind::ProcessList)
        } else if n == 2 {
            Some(InfoKind::PortList)
        } else if n == 3 {
            Some(InfoKind::NetifList)
        } else if n == 4 {
            Some(InfoKind::DiskInfo)
        } else {
            None
        }
    }

    /// The number that stands for the kind in a message.
    pub fn as_i32(self) -> (n: i32)
        ensures
            n == self.number(),
    {
        match self {
            InfoKind::ProcessSummary => 0,
            InfoKind::ProcessList => 1,
            InfoKind::PortList => 2,
            InfoKind::NetifList => 3,
            InfoKind::DiskInfo => 4,
        }
    }

    /// The kind that a number stands for.
    pub fn from_i32(n: i32) -> (r: Option<InfoKind>)
        ensures
            r == InfoKind::of_number(n),
    {
        if n == 0 {
            Some(InfoKind::ProcessSummary)
        } else if n == 1 {
            Some(InfoKind::ProcessList)
        } else if n == 2 {
            Some(InfoKind::PortList)
        } else if n == 3 {
            Some(InfoKind::NetifList)
        } else if n == 4 {
            Some(InfoKind::DiskInfo)
        } else {
            None
        }
    }

    /// The name of the kind.
    pub open spec fn name(self) -> Seq<char> {
        match self {
            InfoKind::ProcessSummary => "PROCESS_SUMMARY"@,
            InfoKind::ProcessList => "PROCESS_LIST"@,
            InfoKind::PortList => "PORT_LIST"@,
            InfoKind::NetifList => "NETIF_LIST"@,
            InfoKind::DiskInfo => "DISK_INFO"@,
        }
    }

    /// The name of the kind.
    pub fn as_str_name(self) -> (r: &'static str)
        ensures
            r@ == self.name(),
    {
        match self {
            InfoKind::ProcessSummary => "PROCESS_SUMMARY",
            InfoKind::ProcessList => "PROCESS_LIST",
            InfoKind::PortList => "PORT_LIST",
            InfoKind::NetifList => "NETIF_LIST",
            InfoKind::DiskInfo => "DISK_INFO",
        }
    }
}

/// A kind and its number determine each other.
pub proof fn law_kind_numbers_invert(kind: InfoKind, n: i32)
    ensures
        InfoKind::of_number(kind.number()) == Some(kind),
        InfoKind::of_number(n) is Some ==> InfoKind::of_number(n).unwrap().number() == n,
{
}

/// A process. The share of the processor that it takes, in percent, is the bits of a single
/// precision floating-point number.
#[derive(Debug, Clone, PartialEq, Eq)]
pub struct ProcessEntry {
    pub pid: u32,
    pub name: String,
    pub cpu_bits: u32,
    pub mem_kb: u64,
}

#[derive(Debug, Clone, PartialEq, Eq)]
pub struct ProcessSummary {
    pub count: u32,
    pub top_by_cpu: Vec<ProcessEntry>,
}

#[derive(Debug, Clone, PartialEq, Eq)]
pub struct ProcessList {
    pub processes: Vec<ProcessEntry>,
}

/// A port that something listens or talks on.
#[derive(Debug, Clone, PartialEq, Eq)]
pub struct PortEntry {
    pub proto: String,
    pub local_addr: String,
    pub local_port: u32,
    pub state: String,
    pub pid: u32,
}

/// A port as mathematics sees it.
pub struct PortModel {
    pub proto: Seq<char>,
    pub local_addr: Seq<char>,
    pub local_port: int,
    pub state: Seq<char>,
    pub pid: int,
}

impl View for PortEntry {
    type V = PortModel;

    open spec fn view(&self) -> PortModel {
        PortModel {
            proto: self.proto@,
            local_addr: self.local_addr@,
            local_port: self.local_port as int,
            state: self.state@,
            pid: self.pid as int,
        }
    }
}

#[derive(Debug, Clone, PartialEq, Eq)]
pub struct PortList {
    pub ports: Vec<PortEntry>,
}

/// A network interface.
#[derive(Debug, Clone, PartialEq, Eq)]
pub struct NetifEntry {
    pub name: String,
    pub mac: String,
    pub ipv4_addrs: Vec<String>,
    pub ipv6_addrs: Vec<String>,
    pub is_up: bool,
    pub mtu: u32,
}

#[derive(Debug, Clone, PartialEq, Eq)]
pub struct NetifList {
    pub interfaces: Vec<NetifEntry>,
}

/// A mounted file system.
#[derive(Debug, Clone, PartialEq, Eq)]
pub struct DiskEntry {
    pub mount_point: String,
    pub fs_type: String,
    pub total_bytes: u64,
    pub used_bytes: u64,
    pub free_bytes: u64,
}

#[derive(Debug, Clone, PartialEq, Eq)]
pub struct DiskInfo {
    pub disks: Vec<DiskEntry>,
}

/// What was gathered of one kind.
#[derive(Debug, Clone, PartialEq, Eq)]
pub enum Payload {
    ProcessSummary(ProcessSummary),
    Processes(ProcessList),
    Ports(PortList),
    Interfaces(NetifList),
    Disks(DiskInfo),
}

#[derive(Debug, Clone, PartialEq, Eq)]
pub struct InfoSnapshot {
    pub kind: i32,
    pub payload: Option<Payload>,
}

/// What was gathered at one time.
#[derive(Debug, Clone, PartialEq, Eq)]
pub struct TelemetryReport {
    pub ts_ms: u64,
    pub items: Vec<InfoSnapshot>,
}

/// What the server wants to be told.
#[derive(Debug, Clone, PartialEq, Eq)]
pub struct CollectRequest {
    pub kinds: Vec<i32>,
}

/// What goes over the telemetry stream.
#[derive(Debug, Clone, PartialEq, Eq)]
pub enum TelemetryMsg {
    Report(TelemetryReport),
    CollectReq(CollectRequest),
}

#[derive(Debug, Clone, PartialEq, Eq)]
pub struct TelemetryMessage {
    pub msg: Option<TelemetryMsg>,
}

/// The numbers and the names that stand for the kinds in messages and logs; no other number
/// stands for one.
pub proof fn law_kinds_have_their_numbers(n: i32)
    ensures
        InfoKind::ProcessSummary.number() == 0 && InfoKind::ProcessSummary.name()
            == "PROCESS_SUMMARY"@,
        InfoKind::ProcessList.number() == 1 && InfoKind::ProcessList.name() == "PROCESS_LIST"@,
        InfoKind::PortList.number() == 2 && InfoKind::PortList.name() == "PORT_LIST"@,
        InfoKind::NetifList.number() == 3 && InfoKind::NetifList.name() == "NETIF_LIST"@,
        InfoKind::DiskInfo.number() == 4 && InfoKind::DiskInfo.name() == "DISK_INFO"@,
        InfoKind::of_number(n) is Some <==> 0 <= n <= 4,
{
}

/// A port as mathematics sees it is what the entry says.
pub proof fn law_port_is_seen_as_it_is(p: PortEntry)
    ensures
        p@.proto == p.proto@,
        p@.local_addr == p.local_addr@,
        p@.local_port == p.local_port,
        p@.state == p.state@,
        p@.pid == p.pid,
{
}

} // verus!

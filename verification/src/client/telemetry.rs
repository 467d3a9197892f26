//! What a client reports, and when.
use vstd::prelude::*;

use crate::client::supervisor::ExitCause;
use crate::msgx::codec::FrameError;
use crate::sysprobe::collector::{Collector, CollectorRegistry};
use crate::sysprobe::collectors::{
    DiskCollector, NetifCollector, PortCollector, ProcessFullCollector, ProcessSummaryCollector,
    SystemCollector,
};
use crate::sysprobe::proto::{InfoKind, TelemetryMessage, TelemetryMsg, TelemetryReport};
use crate::time;
use crate::time::{Duration, Instant};

verus! {

pub const PUSH_TICK_SECS: u64 = 1;

/// How often a client looks whether something is due.
pub fn push_tick() -> (d: Duration)
    ensures
        d.nanos == PUSH_TICK_SECS * time::NANOS_PER_SEC,
{
    Duration::from_secs(PUSH_TICK_SECS)
}

/// The collector that a client has for each kind.
pub open spec fn default_collector(kind: InfoKind) -> SystemCollector {
    match kind {
        InfoKind::ProcessSummary => SystemCollector::ProcessSummary(ProcessSummaryCollector),
        InfoKind::ProcessList => SystemCollector::ProcessFull(ProcessFullCollector),
        InfoKind::PortList => SystemCollector::Port(PortCollector),
        InfoKind::NetifList => SystemCollector::Netif(NetifCollector),
        InfoKind::DiskInfo => SystemCollector::Disk(DiskCollector),
    }
}

/// The collectors of a client, one for each kind, in use from `now` on.
pub fn build_default_registry(now: Instant) -> (r: CollectorRegistry<SystemCollector>)
    ensures
        r.wf(),
        forall|kind: InfoKind| #[trigger] r.collectors().dom().contains(kind),
        forall|kind: InfoKind| #[trigger] r.collectors()[kind] == default_collector(kind),
        forall|kind: InfoKind| #[trigger] r.last_push().dom().contains(kind),
        forall|kind: InfoKind| #[trigger] r.last_push()[kind] == now,
{
    let mut reg: CollectorRegistry<SystemCollector> = CollectorRegistry::new();
    reg.register(SystemCollector::ProcessSummary(ProcessSummaryCollector::new()), now);
    reg.register(SystemCollector::ProcessFull(ProcessFullCollector::new()), now);
    reg.register(SystemCollector::Port(PortCollector::new()), now);
    reg.register(SystemCollector::Netif(NetifCollector::new()), now);
    reg.register(SystemCollector::Disk(DiskCollector::new()), now);
    proof {
        let m = reg.collectors();
        let t = reg.last_push();
        assert forall|kind: InfoKind| #[trigger] m.dom().contains(kind) && m[kind]
            == default_collector(kind) && t.dom().contains(kind) && t[kind] == now by {
            match kind {
                InfoKind::ProcessSummary => {},
                InfoKind::ProcessList => {},
                InfoKind::PortList => {},
                InfoKind::NetifList => {},
                InfoKind::DiskInfo => {},
            }
        }
    }
    reg
}

/// What a client is to gather at `now`, if anything.
pub fn due_for_push<C: Collector>(registry: &CollectorRegistry<C>, now: Instant) -> (r: Option<
    Vec<InfoKind>,
>)
    requires
        registry.wf(),
        registry.deadlines_fit(),
    ensures
        match r {
            Some(due) => {
                &&& due@.len() > 0
                &&& due@.no_duplicates()
                &&& forall|k: InfoKind| due@.contains(k) <==> registry.is_due(k, now)
            },
            None => forall|k: InfoKind| !registry.is_due(k, now),
        },
{
    let due = registry.push_due(now);
    if due.len() == 0 {
        proof {
            assert forall|k: InfoKind| !registry.is_due(k, now) by {
                assert(!due@.contains(k));
            }
        }
        None
    } else {
        Some(due)
    }
}

/// The times at which each kind was last reported, once those of `due` were reported at `now`.
pub open spec fn after_push(
    last_push: Map<InfoKind, Instant>,
    due: Seq<InfoKind>,
    now: Instant,
) -> Map<InfoKind, Instant>
    decreases due.len(),
{
    if due.len() == 0 {
        last_push
    } else {
        after_push(last_push, due.drop_last(), now).insert(due.last(), now)
    }
}

/// Notes that all that was due has been reported at `now`.
pub fn mark_all_pushed<C: Collector>(
    registry: &mut CollectorRegistry<C>,
    due: &[InfoKind],
    now: Instant,
)
    requires
        old(registry).wf(),
    ensures
        final(registry).wf(),
        final(registry).collectors() == old(registry).collectors(),
        final(registry).last_push() == after_push(old(registry).last_push(), due@, now),
{
    let mut i: usize = 0;
    let ghost start = registry.last_push();
    assert(due@.take(0) =~= Seq::<InfoKind>::empty());
    while i < due.len()
        invariant
            i <= due@.len(),
            registry.wf(),
            registry.collectors() == old(registry).collectors(),
            registry.last_push() == after_push(start, due@.take(i as int), now),
        decreases due@.len() - i,
    {
        assert(due@.take(i + 1).drop_last() =~= due@.take(i as int));
        registry.mark_pushed(due[i], now);
        i = i + 1;
    }
    assert(due@.take(i as int) =~= due@);
}

/// What was due and has been reported is not due again until it has rested; all else is as due
/// as it was.
pub proof fn law_pushed_kinds_rest<C: Collector>(
    before: CollectorRegistry<C>,
    after: CollectorRegistry<C>,
    due: Seq<InfoKind>,
    at: Instant,
    kind: InfoKind,
    later: Instant,
)
    requires
        after.collectors() == before.collectors(),
        after.last_push() == after_push(before.last_push(), due, at),
    ensures
        due.contains(kind) && before.cadence_of(kind) is Some ==> (after.is_due(kind, later)
            <==> later.nanos >= at.nanos + before.cadence_of(kind).unwrap().nanos),
        !due.contains(kind) ==> after.is_due(kind, later) == before.is_due(kind, later),
{
    lemma_after_push(before.last_push(), due, at, kind);
}

proof fn lemma_after_push(
    last_push: Map<InfoKind, Instant>,
    due: Seq<InfoKind>,
    at: Instant,
    kind: InfoKind,
)
    ensures
        due.contains(kind) ==> {
            &&& after_push(last_push, due, at).dom().contains(kind)
            &&& after_push(last_push, due, at)[kind] == at
        },
        !due.contains(kind) ==> {
            &&& after_push(last_push, due, at).dom().contains(kind) == last_push.dom().contains(
                kind,
            )
            &&& after_push(last_push, due, at)[kind] == last_push[kind]
        },
    decreases due.len(),
{
    if due.len() > 0 {
        let rest = due.drop_last();
        lemma_after_push(last_push, rest, at, kind);
        assert(due[due.len() - 1] == due.last());
        if rest.contains(kind) {
            let i = choose|i: int| 0 <= i < rest.len() && rest[i] == kind;
            assert(due[i] == kind);
        } else if due.contains(kind) {
            let i = choose|i: int| 0 <= i < due.len() && due[i] == kind;
            if i < rest.len() {
                assert(rest[i] == kind);
            }
        }
    }
}

/// The kinds that numbers stand for; numbers that stand for none are passed over.
pub open spec fn kinds_of(raw: Seq<i32>) -> Seq<InfoKind>
    decreases raw.len(),
{
    if raw.len() == 0 {
        Seq::empty()
    } else {
        match InfoKind::of_number(raw.last()) {
            Some(k) => kinds_of(raw.drop_last()).push(k),
            None => kinds_of(raw.drop_last()),
        }
    }
}

/// The kinds that numbers stand for.
pub fn kinds_from_i32(raw: &[i32]) -> (r: Vec<InfoKind>)
    ensures
        r@ == kinds_of(raw@),
{
    let mut r: Vec<InfoKind> = Vec::new();
    let mut i: usize = 0;
    while i < raw.len()
        invariant
            i <= raw@.len(),
            r@ == kinds_of(raw@.take(i as int)),
        decreases raw@.len() - i,
    {
        assert(raw@.take(i + 1).drop_last() =~= raw@.take(i as int));
        if let Some(k) = InfoKind::from_i32(raw[i]) {
            r.push(k);
        }
        i = i + 1;
    }
    assert(raw@.take(i as int) =~= raw@);
    r
}

/// The message that carries a report.
pub fn report_msg(report: TelemetryReport) -> (m: TelemetryMessage)
    ensures
        m.msg == Some(TelemetryMsg::Report(report)),
{
    TelemetryMessage { msg: Some(TelemetryMsg::Report(report)) }
}

/// The message that opens the telemetry stream: a report of nothing.
pub fn opening_report() -> (m: TelemetryMessage)
    ensures
        m.msg matches Some(TelemetryMsg::Report(r)) && r.ts_ms == 0 && r.items@.len() == 0,
{
    report_msg(TelemetryReport { ts_ms: 0, items: Vec::new() })
}

/// What a client gathers because the server wants it, or that the stream is at its end: where
/// nothing more arrives, or something else does.
pub fn handle_pull_msg(msg: Result<Option<TelemetryMessage>, FrameError>) -> (r: Option<
    Vec<InfoKind>,
>)
    ensures
        match msg {
            Ok(Some(m)) => match m.msg {
                Some(TelemetryMsg::CollectReq(req)) => r matches Some(kinds) && kinds@ == kinds_of(
                    req.kinds@,
                ),
                _ => r is None,
            },
            _ => r is None,
        },
{
    match msg {
        Ok(Some(m)) => match m.msg {
            Some(TelemetryMsg::CollectReq(req)) => Some(kinds_from_i32(req.kinds.as_slice())),
            _ => None,
        },
        _ => None,
    }
}

/// What has happened to the loop that reports.
#[derive(Debug)]
pub enum TelemetryEvent {
    /// It was told to stop.
    Shutdown,
    /// It is time to look whether something is due.
    Tick(Instant),
    /// A message from the server was waited for.
    Received(Result<Option<TelemetryMessage>, FrameError>),
    /// What was due at some time has been gathered.
    Pushed { due: Vec<InfoKind>, at: Instant, report: TelemetryReport },
    /// What was asked for has been gathered.
    Pulled(TelemetryReport),
    /// A report was sent, or could not be.
    Sent(Result<(), FrameError>),
}

/// What the loop that reports finds when it looks: all that it waits for and that is there. A
/// tick comes with the time.
#[derive(Debug)]
pub struct TelemetryLook {
    pub shutdown: bool,
    pub tick: Option<Instant>,
    pub received: Option<Result<Option<TelemetryMessage>, FrameError>>,
}

/// What the loop that reports takes up first of what it finds: that it was told to stop goes
/// before all else, then the look whether something is due, then a message.
pub fn first_of(look: TelemetryLook) -> (r: Option<TelemetryEvent>)
    ensures
        r == if look.shutdown {
            Some(TelemetryEvent::Shutdown)
        } else {
            match (look.tick, look.received) {
                (Some(now), _) => Some(TelemetryEvent::Tick(now)),
                (None, Some(msg)) => Some(TelemetryEvent::Received(msg)),
                (None, None) => None,
            }
        },
{
    if look.shutdown {
        return Some(TelemetryEvent::Shutdown);
    }
    match (look.tick, look.received) {
        (Some(now), _) => Some(TelemetryEvent::Tick(now)),
        (None, Some(msg)) => Some(TelemetryEvent::Received(msg)),
        (None, None) => None,
    }
}

/// What the loop that reports has to do next.
#[derive(Debug)]
pub enum TelemetryAction {
    /// Wait until it is told to stop, a second has gone by, or a message arrives.
    Wait,
    /// Gather what is due.
    Push { due: Vec<InfoKind>, at: Instant },
    /// Gather what was asked for.
    Pull(Vec<InfoKind>),
    /// Send a message.
    Send(TelemetryMessage),
    /// Stop.
    Stop,
}

/// The next step of the loop that reports. It gathers what is due and what is asked for, and
/// sends it; what was gathered because it was due then rests, whether or not it gets through.
/// It stops when it is told to, when the stream ends, and when the server says anything but
/// what it wants to be told.
pub fn telemetry_step<C: Collector>(
    registry: &mut CollectorRegistry<C>,
    event: TelemetryEvent,
) -> (r: TelemetryAction)
    requires
        old(registry).wf(),
        event is Tick ==> old(registry).deadlines_fit(),
    ensures
        final(registry).wf(),
        final(registry).collectors() == old(registry).collectors(),
        final(registry).last_push() == match event {
            TelemetryEvent::Pushed { due, at, .. } => after_push(
                old(registry).last_push(),
                due@,
                at,
            ),
            _ => old(registry).last_push(),
        },
        match event {
            TelemetryEvent::Shutdown => r == TelemetryAction::Stop,
            TelemetryEvent::Tick(now) => match r {
                TelemetryAction::Push { due, at } => {
                    &&& at == now
                    &&& due@.len() > 0
                    &&& due@.no_duplicates()
                    &&& forall|k: InfoKind| due@.contains(k) <==> old(registry).is_due(k, now)
                },
                TelemetryAction::Wait => forall|k: InfoKind| !old(registry).is_due(k, now),
                _ => false,
            },
            TelemetryEvent::Received(Ok(Some(m))) => match m.msg {
                Some(TelemetryMsg::CollectReq(req)) => r matches TelemetryAction::Pull(kinds)
                    && kinds@ == kinds_of(req.kinds@),
                _ => r == TelemetryAction::Stop,
            },
            TelemetryEvent::Received(_) => r == TelemetryAction::Stop,
            TelemetryEvent::Pushed { report, .. } => r matches TelemetryAction::Send(m) && m.msg
                == Some(TelemetryMsg::Report(report)),
            TelemetryEvent::Pulled(report) => r matches TelemetryAction::Send(m) && m.msg == Some(
                TelemetryMsg::Report(report),
            ),
            TelemetryEvent::Sent(_) => r == TelemetryAction::Wait,
        },
{
    match event {
        TelemetryEvent::Shutdown => TelemetryAction::Stop,
        TelemetryEvent::Tick(now) => match due_for_push(registry, now) {
            Some(due) => TelemetryAction::Push { due, at: now },
            None => TelemetryAction::Wait,
        },
        TelemetryEvent::Received(msg) => match handle_pull_msg(msg) {
            Some(kinds) => TelemetryAction::Pull(kinds),
            None => TelemetryAction::Stop,
        },
        TelemetryEvent::Pushed { due, at, report } => {
            mark_all_pushed(registry, due.as_slice(), at);
            TelemetryAction::Send(report_msg(report))
        },
        TelemetryEvent::Pulled(report) => TelemetryAction::Send(report_msg(report)),
        TelemetryEvent::Sent(_) => TelemetryAction::Wait,
    }
}

/// The cause that telemetry leaves, whether its stream could be opened or not.
pub fn telemetry_cause() -> (r: ExitCause)
    ensures
        r == ExitCause::TelemetryEnded,
{
    ExitCause::TelemetryEnded
}

/// A client's collectors report everything that has a cadence, each when it has rested, and the
/// file systems only when they are asked for.
pub proof fn law_default_registry_schedule(
    registry: CollectorRegistry<SystemCollector>,
    start: Instant,
    now: Instant,
)
    requires
        forall|kind: InfoKind| #[trigger] registry.collectors().dom().contains(kind),
        forall|kind: InfoKind| #[trigger]
            registry.collectors()[kind] == default_collector(kind),
        forall|kind: InfoKind| #[trigger] registry.last_push().dom().contains(kind),
        forall|kind: InfoKind| #[trigger] registry.last_push()[kind] == start,
    ensures
        !registry.is_due(InfoKind::DiskInfo, now),
        registry.is_due(InfoKind::ProcessSummary, now) <==> now.nanos >= start.nanos + 30
            * time::NANOS_PER_SEC,
        registry.is_due(InfoKind::PortList, now) <==> now.nanos >= start.nanos + 60
            * time::NANOS_PER_SEC,
        registry.is_due(InfoKind::ProcessList, now) <==> now.nanos >= start.nanos + 300
            * time::NANOS_PER_SEC,
        registry.is_due(InfoKind::NetifList, now) <==> now.nanos >= start.nanos + 600
            * time::NANOS_PER_SEC,
{
    assert(registry.collectors().dom().contains(InfoKind::DiskInfo));
    assert(registry.collectors().dom().contains(InfoKind::ProcessSummary));
    assert(registry.collectors().dom().contains(InfoKind::PortList));
    assert(registry.collectors().dom().contains(InfoKind::ProcessList));
    assert(registry.collectors().dom().contains(InfoKind::NetifList));
    assert(registry.last_push().dom().contains(InfoKind::ProcessSummary));
    assert(registry.last_push().dom().contains(InfoKind::PortList));
    assert(registry.last_push().dom().contains(InfoKind::ProcessList));
    assert(registry.last_push().dom().contains(InfoKind::NetifList));
}

/// Each kind has a collector that gathers it.
pub proof fn law_each_kind_has_its_collector(kind: InfoKind)
    ensures
        default_collector(kind).the_kind() == kind,
        kind == InfoKind::DiskInfo <==> default_collector(kind).the_cadence() is None,
{
}

/// What was reported has the time of the report, and nothing else has another time than before.
pub proof fn law_only_what_was_reported_is_marked(
    last_push: Map<InfoKind, Instant>,
    due: Seq<InfoKind>,
    at: Instant,
    kind: InfoKind,
)
    ensures
        due.contains(kind) ==> {
            &&& after_push(last_push, due, at).dom().contains(kind)
            &&& after_push(last_push, due, at)[kind] == at
        },
        !due.contains(kind) ==> {
            &&& after_push(last_push, due, at).dom().contains(kind) == last_push.dom().contains(
                kind,
            )
            &&& after_push(last_push, due, at)[kind] == last_push[kind]
        },
{
    lemma_after_push(last_push, due, at, kind);
}

/// The kinds that numbers stand for come one by one and in order: the numbers from 0 to 4 stand
/// for one each, any other for none.
pub proof fn law_kinds_come_one_by_one(raw: Seq<i32>, n: i32)
    ensures
        kinds_of(Seq::empty()) == Seq::<InfoKind>::empty(),
        kinds_of(raw.push(0)) == kinds_of(raw).push(InfoKind::ProcessSummary),
        kinds_of(raw.push(1)) == kinds_of(raw).push(InfoKind::ProcessList),
        kinds_of(raw.push(2)) == kinds_of(raw).push(InfoKind::PortList),
        kinds_of(raw.push(3)) == kinds_of(raw).push(InfoKind::NetifList),
        kinds_of(raw.push(4)) == kinds_of(raw).push(InfoKind::DiskInfo),
        !(0 <= n <= 4) ==> kinds_of(raw.push(n)) == kinds_of(raw),
{
    assert(raw.push(0).drop_last() =~= raw);
    assert(raw.push(1).drop_last() =~= raw);
    assert(raw.push(2).drop_last() =~= raw);
    assert(raw.push(3).drop_last() =~= raw);
    assert(raw.push(4).drop_last() =~= raw);
    assert(raw.push(n).drop_last() =~= raw);
}

} // verus!

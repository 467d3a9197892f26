//! What gathers telemetry, and when which of it is due.
use vstd::prelude::*;

use crate::sysprobe::proto::{InfoKind, InfoSnapshot, TelemetryReport};
use crate::text;
use crate::time::{Duration, Instant};

verus! {

/// Why nothing was gathered.
#[derive(Debug, Clone, PartialEq, Eq)]
pub enum CollectError {
    Io(String),
    System(String),
    NotSupported(String),
}

impl CollectError {
    /// The text of the error.
    pub open spec fn text(self) -> Seq<char> {
        match self {
            CollectError::Io(what) => "I/O error during collection: "@ + what@,
            CollectError::System(what) => "system API error during collection: "@ + what@,
            CollectError::NotSupported(what) => "collection not supported on this platform: "@
                + what@,
        }
    }

    /// The error in words.
    pub fn message(&self) -> (r: String)
        ensures
            r@ == self.text(),
    {
        match self {
            CollectError::Io(what) => text::join2("I/O error during collection: ", what.as_str()),
            CollectError::System(what) => text::join2(
                "system API error during collection: ",
                what.as_str(),
            ),
            CollectError::NotSupported(what) => text::join2(
                "collection not supported on this platform: ",
                what.as_str(),
            ),
        }
    }
}

/// A source of one kind of telemetry. One with a cadence is asked again and again, so long
/// after the last time; one without is asked only when the server wants it.
pub trait Collector {
    /// The kind of what it gathers.
    spec fn the_kind(&self) -> InfoKind;

    /// How long it rests.
    spec fn the_cadence(&self) -> Option<Duration>;

    fn kind(&self) -> (k: InfoKind)
        ensures
            k == self.the_kind(),
    ;

    fn cadence(&self) -> (c: Option<Duration>)
        ensures
            c == self.the_cadence(),
    ;
}

/// Whether no kind stands twice in front of a value.
spec fn keys_differ<V>(s: Seq<(InfoKind, V)>) -> bool {
    forall|i: int, j: int| 0 <= i < j < s.len() ==> (#[trigger] s[i]).0 != (#[trigger] s[j]).0
}

/// Whether `kind` stands in front of a value.
spec fn has_key<V>(s: Seq<(InfoKind, V)>, kind: InfoKind) -> bool {
    exists|i: int| 0 <= i < s.len() && (#[trigger] s[i]).0 == kind
}

/// The value behind `kind`.
spec fn value_of<V>(s: Seq<(InfoKind, V)>, kind: InfoKind) -> V {
    s[choose|i: int| 0 <= i < s.len() && (#[trigger] s[i]).0 == kind].1
}

/// The pairs as a map.
spec fn pairs_map<V>(s: Seq<(InfoKind, V)>) -> Map<InfoKind, V> {
    Map::new(|k: InfoKind| has_key(s, k), |k: InfoKind| value_of(s, k))
}

proof fn lemma_pair_at<V>(s: Seq<(InfoKind, V)>, i: int)
    requires
        keys_differ(s),
        0 <= i < s.len(),
    ensures
        pairs_map(s).dom().contains(s[i].0),
        pairs_map(s)[s[i].0] == s[i].1,
{
    assert(has_key(s, s[i].0));
    let j = choose|j: int| 0 <= j < s.len() && (#[trigger] s[j]).0 == s[i].0;
    assert(j == i);
}

/// The place of `kind` in a row of pairs.
fn position<V>(items: &Vec<(InfoKind, V)>, kind: InfoKind) -> (r: Option<usize>)
    ensures
        match r {
            Some(i) => i < items@.len() && items@[i as int].0 == kind,
            None => !has_key(items@, kind),
        },
{
    let mut i: usize = 0;
    while i < items.len()
        invariant
            i <= items@.len(),
            forall|j: int| 0 <= j < i ==> (#[trigger] items@[j]).0 != kind,
        decreases items@.len() - i,
    {
        if items[i].0 == kind {
            return Some(i);
        }
        i = i + 1;
    }
    None
}

/// Puts `value` behind `kind`, in place of what stood there.
fn put<V>(items: &mut Vec<(InfoKind, V)>, kind: InfoKind, value: V)
    requires
        keys_differ(old(items)@),
    ensures
        keys_differ(final(items)@),
        pairs_map(final(items)@) == pairs_map(old(items)@).insert(kind, value),
{
    let ghost before = items@;
    match position(items, kind) {
        Some(i) => {
            items.set(i, (kind, value));
            proof {
                assert(items@ == before.update(i as int, (kind, value)));
                lemma_same_map_after_put(before, items@, i as int, kind, value);
            }
        },
        None => {
            items.push((kind, value));
            proof {
                assert(items@ == before.push((kind, value)));
                lemma_same_map_after_put(before, items@, before.len() as int, kind, value);
            }
        },
    }
}

proof fn lemma_same_map_after_put<V>(
    before: Seq<(InfoKind, V)>,
    after: Seq<(InfoKind, V)>,
    at: int,
    kind: InfoKind,
    value: V,
)
    requires
        keys_differ(before),
        0 <= at < after.len(),
        at <= before.len(),
        after[at] == (kind, value),
        before.len() <= after.len(),
        at < before.len() ==> before[at].0 == kind && after.len() == before.len(),
        at == before.len() ==> !has_key(before, kind) && after.len() == before.len() + 1,
        forall|i: int| 0 <= i < before.len() && i != at ==> after[i] == #[trigger] before[i],
    ensures
        keys_differ(after),
        pairs_map(after) == pairs_map(before).insert(kind, value),
{
    assert forall|i: int| 0 <= i < before.len() && i != at implies (#[trigger] before[i]).0
        != kind by {
        if before[i].0 == kind {
            assert(has_key(before, kind));
        }
    }
    assert forall|i: int, j: int| 0 <= i < j < after.len() implies (#[trigger] after[i]).0 != (
    #[trigger] after[j]).0 by {
        if i != at {
            assert(after[i] == before[i]);
        }
        if j != at {
            assert(after[j] == before[j]);
        }
    }
    let m = pairs_map(after);
    let want = pairs_map(before).insert(kind, value);
    assert forall|k: InfoKind| m.dom().contains(k) == want.dom().contains(k) by {
        if has_key(after, k) {
            let i = choose|i: int| 0 <= i < after.len() && (#[trigger] after[i]).0 == k;
            if i != at {
                assert(before[i].0 == k);
            }
        }
        if has_key(before, k) {
            let i = choose|i: int| 0 <= i < before.len() && (#[trigger] before[i]).0 == k;
            if i != at {
                assert(after[i].0 == k);
            }
        }
        assert(after[at].0 == kind);
    }
    assert forall|k: InfoKind| m.dom().contains(k) implies m[k] == want[k] by {
        let i = choose|i: int| 0 <= i < after.len() && (#[trigger] after[i]).0 == k;
        lemma_pair_at(after, i);
        if i == at {
            assert(k == kind);
        } else {
            assert(before[i] == after[i]);
            lemma_pair_at(before, i);
        }
    }
    assert(m =~= want);
}

/// The collectors in use, one for each kind at most, and when each kind was last reported.
pub struct CollectorRegistry<C> {
    collectors: Vec<(InfoKind, C)>,
    last_push: Vec<(InfoKind, Instant)>,
}

impl<C: Collector> CollectorRegistry<C> {
    /// The collector of each kind that has one.
    pub closed spec fn collectors(&self) -> Map<InfoKind, C> {
        pairs_map(self.collectors@)
    }

    /// When each kind was last reported.
    pub closed spec fn last_push(&self) -> Map<InfoKind, Instant> {
        pairs_map(self.last_push@)
    }

    /// Whether each kind has one collector and one time at most, each kind that has a collector
    /// has a time, and each collector gathers what it is registered for.
    pub closed spec fn wf(&self) -> bool {
        &&& keys_differ(self.collectors@)
        &&& keys_differ(self.last_push@)
        &&& self.collectors().dom().subset_of(self.last_push().dom())
        &&& forall|i: int|
            0 <= i < self.collectors@.len() ==> (#[trigger] self.collectors@[i]).1.the_kind()
                == self.collectors@[i].0
    }

    /// How long `kind` rests, if it is to be reported again and again.
    pub open spec fn cadence_of(&self, kind: InfoKind) -> Option<Duration> {
        if self.collectors().dom().contains(kind) {
            self.collectors()[kind].the_cadence()
        } else {
            None
        }
    }

    /// Whether `kind` is due at `now`: it has a cadence, and that much time has gone by since
    /// it was last reported.
    pub open spec fn is_due(&self, kind: InfoKind, now: Instant) -> bool {
        &&& self.cadence_of(kind) is Some
        &&& self.last_push().dom().contains(kind)
        &&& now.nanos >= self.last_push()[kind].nanos + self.cadence_of(kind).unwrap().nanos
    }

    /// Whether the time at which each kind is due next can be written down.
    pub open spec fn deadlines_fit(&self) -> bool {
        forall|kind: InfoKind|
            self.last_push().dom().contains(kind) && (#[trigger] self.cadence_of(kind)) is Some
                ==> self.last_push()[kind].nanos + self.cadence_of(kind).unwrap().nanos
                <= u128::MAX
    }

    /// A registry without collectors.
    pub fn new() -> (r: CollectorRegistry<C>)
        ensures
            r.wf(),
            r.collectors() == Map::<InfoKind, C>::empty(),
            r.last_push() == Map::<InfoKind, Instant>::empty(),
    {
        let r = CollectorRegistry { collectors: Vec::new(), last_push: Vec::new() };
        assert(r.collectors() =~= Map::<InfoKind, C>::empty());
        assert(r.last_push() =~= Map::<InfoKind, Instant>::empty());
        r
    }

    /// Puts a collector to use, from `now` on, in place of any other of its kind.
    pub fn register(&mut self, collector: C, now: Instant)
        requires
            old(self).wf(),
        ensures
            final(self).wf(),
            final(self).collectors() == old(self).collectors().insert(
                collector.the_kind(),
                collector,
            ),
            final(self).last_push() == old(self).last_push().insert(collector.the_kind(), now),
    {
        self.register_at(collector, now);
    }

    /// Puts a collector to use, in place of any other of its kind, as if its kind had last been
    /// reported at `now`.
    pub fn register_at(&mut self, collector: C, now: Instant)
        requires
            old(self).wf(),
        ensures
            final(self).wf(),
            final(self).collectors() == old(self).collectors().insert(
                collector.the_kind(),
                collector,
            ),
            final(self).last_push() == old(self).last_push().insert(collector.the_kind(), now),
    {
        let kind = collector.kind();
        put(&mut self.last_push, kind, now);
        let ghost before = self.collectors@;
        put(&mut self.collectors, kind, collector);
        proof {
            assert forall|i: int| 0 <= i < self.collectors@.len() implies (
            #[trigger] self.collectors@[i]).1.the_kind() == self.collectors@[i].0 by {
                let k = self.collectors@[i].0;
                lemma_pair_at(self.collectors@, i);
                if k != kind {
                    assert(pairs_map(before).dom().contains(k));
                    let j = choose|j: int| 0 <= j < before.len() && (#[trigger] before[j]).0 == k;
                    lemma_pair_at(before, j);
                }
            }
        }
    }

    /// The kinds that have a collector, each once, in no order that is stated.
    pub fn kinds(&self) -> (r: Vec<InfoKind>)
        requires
            self.wf(),
        ensures
            r@.no_duplicates(),
            forall|k: InfoKind| r@.contains(k) <==> self.collectors().dom().contains(k),
    {
        let mut r: Vec<InfoKind> = Vec::new();
        let mut i: usize = 0;
        while i < self.collectors.len()
            invariant
                self.wf(),
                i <= self.collectors@.len(),
                r@.len() == i,
                forall|j: int| 0 <= j < i ==> #[trigger] r@[j] == self.collectors@[j].0,
            decreases self.collectors@.len() - i,
        {
            r.push(self.collectors[i].0);
            i = i + 1;
        }
        proof {
            let s = self.collectors@;
            assert forall|k: InfoKind| r@.contains(k) <==> self.collectors().dom().contains(k) by {
                if r@.contains(k) {
                    let j = choose|j: int| 0 <= j < r@.len() && r@[j] == k;
                    assert(s[j].0 == k);
                }
                if has_key(s, k) {
                    let j = choose|j: int| 0 <= j < s.len() && (#[trigger] s[j]).0 == k;
                    assert(r@[j] == k);
                }
            }
            assert forall|a: int, b: int| 0 <= a < r@.len() && 0 <= b < r@.len() && a
                != b implies r@[a] != r@[b] by {
                assert(r@[a] == s[a].0 && r@[b] == s[b].0);
                if a < b {
                    assert(s[a].0 != s[b].0);
                } else {
                    assert(s[b].0 != s[a].0);
                }
            }
        }
        r
    }

    /// The collector of `kind`.
    pub fn get(&self, kind: InfoKind) -> (r: Option<&C>)
        requires
            self.wf(),
        ensures
            match r {
                Some(c) => {
                    &&& self.collectors().dom().contains(kind)
                    &&& *c == self.collectors()[kind]
                    &&& c.the_kind() == kind
                },
                None => !self.collectors().dom().contains(kind),
            },
    {
        match position(&self.collectors, kind) {
            Some(i) => {
                proof {
                    lemma_pair_at(self.collectors@, i as int);
                }
                Some(&self.collectors[i].1)
            },
            None => None,
        }
    }

    /// The kinds that are due at `now`, each once, in no order that is stated.
    pub fn push_due(&self, now: Instant) -> (r: Vec<InfoKind>)
        requires
            self.wf(),
            self.deadlines_fit(),
        ensures
            r@.no_duplicates(),
            forall|k: InfoKind| r@.contains(k) <==> self.is_due(k, now),
    {
        let mut r: Vec<InfoKind> = Vec::new();
        let mut i: usize = 0;
        let ghost s = self.collectors@;
        while i < self.collectors.len()
            invariant
                self.wf(),
                self.deadlines_fit(),
                s == self.collectors@,
                i <= s.len(),
                r@.no_duplicates(),
                forall|k: InfoKind| #[trigger]
                    r@.contains(k) <==> self.is_due(k, now) && has_key(s.take(i as int), k),
            decreases s.len() - i,
        {
            let kind = self.collectors[i].0;
            let ghost before = r@;
            proof {
                lemma_pair_at(s, i as int);
                assert(!has_key(s.take(i as int), kind));
                assert forall|k: InfoKind| has_key(s.take(i + 1), k) <==> has_key(
                    s.take(i as int),
                    k,
                ) || k == kind by {
                    if has_key(s.take(i + 1), k) {
                        let j = choose|j: int|
                            0 <= j < i + 1 && (#[trigger] s.take(i + 1)[j]).0 == k;
                        if j < i {
                            assert(s.take(i as int)[j].0 == k);
                        }
                    }
                    if has_key(s.take(i as int), k) {
                        let j = choose|j: int| 0 <= j < i && (#[trigger] s.take(i as int)[j]).0
                            == k;
                        assert(s.take(i + 1)[j].0 == k);
                    }
                    assert(s.take(i + 1)[i as int].0 == kind);
                }
            }
            let mut due = false;
            if let Some(cadence) = self.collectors[i].1.cadence() {
                assert(self.cadence_of(kind) == Some(cadence));
                if let Some(at) = position(&self.last_push, kind) {
                    proof {
                        lemma_pair_at(self.last_push@, at as int);
                    }
                    due = now.nanos >= self.last_push[at].1.nanos + cadence.nanos;
                }
            }
            assert(due == self.is_due(kind, now));
            if due {
                r.push(kind);
            }
            proof {
                assert forall|k: InfoKind| #[trigger] r@.contains(k) <==> self.is_due(k, now)
                    && has_key(s.take(i + 1), k) by {
                    if due {
                        assert(r@ == before.push(kind));
                        assert(r@[before.len() as int] == kind);
                        if before.contains(k) {
                            let j = choose|j: int| 0 <= j < before.len() && before[j] == k;
                            assert(r@[j] == k);
                        }
                        if r@.contains(k) && k != kind {
                            let j = choose|j: int| 0 <= j < r@.len() && r@[j] == k;
                            assert(before[j] == k);
                        }
                    }
                    assert(before.contains(k) <==> self.is_due(k, now) && has_key(
                        s.take(i as int),
                        k,
                    ));
                }
                assert(!before.contains(kind));
            }
            i = i + 1;
        }
        proof {
            assert(s.take(i as int) =~= s);
            assert forall|k: InfoKind| r@.contains(k) <==> self.is_due(k, now) by {
                if self.is_due(k, now) {
                    assert(has_key(s, k));
                }
            }
        }
        r
    }

    /// Whether the time at which each kind is due next can be written down.
    pub fn can_reckon(&self) -> (r: bool)
        requires
            self.wf(),
        ensures
            r == self.deadlines_fit(),
    {
        let mut i: usize = 0;
        while i < self.collectors.len()
            invariant
                self.wf(),
                i <= self.collectors@.len(),
                forall|j: int|
                    #![trigger self.collectors@[j]]
                    0 <= j < i && self.cadence_of(self.collectors@[j].0) is Some
                        ==> self.last_push()[self.collectors@[j].0].nanos + self.cadence_of(
                        self.collectors@[j].0,
                    ).unwrap().nanos <= u128::MAX,
            decreases self.collectors@.len() - i,
        {
            let kind = self.collectors[i].0;
            proof {
                lemma_pair_at(self.collectors@, i as int);
                assert(self.last_push().dom().contains(kind));
            }
            if let Some(cadence) = self.collectors[i].1.cadence() {
                assert(self.cadence_of(kind) == Some(cadence));
                if let Some(at) = position(&self.last_push, kind) {
                    proof {
                        lemma_pair_at(self.last_push@, at as int);
                    }
                    if self.last_push[at].1.checked_add(cadence).is_none() {
                        return false;
                    }
                }
            }
            i = i + 1;
        }
        proof {
            assert forall|kind: InfoKind|
                self.last_push().dom().contains(kind) && (#[trigger] self.cadence_of(
                    kind,
                )) is Some implies self.last_push()[kind].nanos + self.cadence_of(
                kind,
            ).unwrap().nanos <= u128::MAX by {
                let s = self.collectors@;
                let j = choose|j: int| 0 <= j < s.len() && (#[trigger] s[j]).0 == kind;
                assert(s[j].0 == kind);
            }
        }
        true
    }

    /// Notes that `kind` was reported at `now`.
    pub fn mark_pushed(&mut self, kind: InfoKind, now: Instant)
        requires
            old(self).wf(),
        ensures
            final(self).wf(),
            final(self).collectors() == old(self).collectors(),
            final(self).last_push() == old(self).last_push().insert(kind, now),
    {
        put(&mut self.last_push, kind, now);
    }

    /// Which of the kinds asked for have to be gathered: those that have a collector, in the
    /// order in which they were asked for.
    pub fn collect_plan(&self, kinds: &[InfoKind]) -> (r: Vec<InfoKind>)
        requires
            self.wf(),
        ensures
            r@ == kinds@.filter(|k: InfoKind| self.collectors().dom().contains(k)),
    {
        let ghost p = |k: InfoKind| self.collectors().dom().contains(k);
        let mut r: Vec<InfoKind> = Vec::new();
        let mut i: usize = 0;
        while i < kinds.len()
            invariant
                self.wf(),
                p == (|k: InfoKind| self.collectors().dom().contains(k)),
                i <= kinds@.len(),
                r@ == kinds@.take(i as int).filter(p),
            decreases kinds@.len() - i,
        {
            let kind = kinds[i];
            proof {
                assert(kinds@.take(i + 1).drop_last() =~= kinds@.take(i as int));
                reveal(Seq::filter);
            }
            if self.get(kind).is_some() {
                r.push(kind);
            }
            i = i + 1;
        }
        assert(kinds@.take(i as int) =~= kinds@);
        r
    }
}

impl<C: Collector> Default for CollectorRegistry<C> {
    fn default() -> (r: CollectorRegistry<C>)
        ensures
            r.wf(),
            r.collectors() == Map::<InfoKind, C>::empty(),
            r.last_push() == Map::<InfoKind, Instant>::empty(),
    {
        CollectorRegistry::new()
    }
}

/// What was gathered, without what could not be.
pub open spec fn gathered(results: Seq<Result<InfoSnapshot, CollectError>>) -> Seq<InfoSnapshot>
    decreases results.len(),
{
    if results.len() == 0 {
        Seq::empty()
    } else {
        match results.last() {
            Ok(snapshot) => gathered(results.drop_last()).push(snapshot),
            Err(_) => gathered(results.drop_last()),
        }
    }
}

/// The report of what was gathered at `ts_ms`, in the order in which it was asked for. What
/// could not be gathered is left out.
pub fn assemble_report(ts_ms: u64, results: Vec<Result<InfoSnapshot, CollectError>>) -> (r:
    TelemetryReport)
    ensures
        r.ts_ms == ts_ms,
        r.items@ == gathered(results@),
{
    let mut items: Vec<InfoSnapshot> = Vec::new();
    let mut rest = results;
    let ghost all = results@;
    let ghost mut done: int = 0;
    // Taken from the front, so that the order stays.
    while rest.len() > 0
        invariant
            0 <= done <= all.len(),
            rest@ == all.skip(done),
            items@ == gathered(all.take(done)),
        decreases rest@.len(),
    {
        let ghost prefix = all.take(done + 1);
        let first = rest.remove(0);
        proof {
            assert(prefix.drop_last() =~= all.take(done));
            assert(prefix.last() == first);
            assert(rest@ =~= all.skip(done + 1));
            done = done + 1;
        }
        if let Ok(snapshot) = first {
            items.push(snapshot);
        }
    }
    assert(all.take(done) =~= all);
    TelemetryReport { ts_ms, items }
}

/// The number of whole milliseconds since the epoch: zero where the clock is before it, or so
/// far past it that the number is too large.
pub open spec fn millis_since_epoch(since: Option<Duration>) -> int {
    match since {
        Some(d) => if d.nanos / 1_000_000 <= u64::MAX {
            d.nanos as int / 1_000_000
        } else {
            0
        },
        None => 0,
    }
}

/// The time stamp of a report, from what the wall clock shows since the epoch, if it is past
/// it.
pub fn epoch_ms(since: Option<Duration>) -> (ms: u64)
    ensures
        ms == millis_since_epoch(since),
{
    match since {
        Some(d) => {
            let millis = d.nanos / 1_000_000;
            if millis <= u64::MAX as u128 {
                millis as u64
            } else {
                0
            }
        },
        None => 0,
    }
}

/// A kind that has a collector with a cadence is due as soon as that much time has gone by since
/// it was last reported or, where it never was, since it was registered.
pub proof fn law_registered_kind_comes_due<C: Collector>(
    registry: CollectorRegistry<C>,
    kind: InfoKind,
    now: Instant,
)
    requires
        registry.wf(),
        registry.cadence_of(kind) is Some,
    ensures
        registry.last_push().dom().contains(kind),
        registry.is_due(kind, now) <==> now.nanos >= registry.last_push()[kind].nanos
            + registry.cadence_of(kind).unwrap().nanos,
{
    assert(registry.collectors().dom().contains(kind));
}

/// A kind that is reported as soon as it is due is not due again until it has rested.
pub proof fn law_reported_kind_rests<C: Collector>(
    before: CollectorRegistry<C>,
    after: CollectorRegistry<C>,
    kind: InfoKind,
    at: Instant,
    later: Instant,
)
    requires
        after.collectors() == before.collectors(),
        after.last_push() == before.last_push().insert(kind, at),
        before.cadence_of(kind) is Some,
    ensures
        after.is_due(kind, later) <==> later.nanos >= at.nanos + before.cadence_of(
            kind,
        ).unwrap().nanos,
{
}

/// A kind whose collector has no cadence is never due.
pub proof fn law_pull_only_is_never_due<C: Collector>(
    registry: CollectorRegistry<C>,
    kind: InfoKind,
    now: Instant,
)
    requires
        registry.cadence_of(kind) is None,
    ensures
        !registry.is_due(kind, now),
{
}

/// A source that fails costs the report nothing but what it would have added.
pub proof fn law_failures_leave_the_rest(results: Seq<Result<InfoSnapshot, CollectError>>, i: int)
    requires
        0 <= i < results.len(),
        results[i] is Err,
    ensures
        gathered(results.remove(i)) == gathered(results),
    decreases results.len(),
{
    let last = results.len() - 1;
    if i == last {
        assert(results.remove(i) =~= results.drop_last());
    } else {
        law_failures_leave_the_rest(results.drop_last(), i);
        assert(results.remove(i).drop_last() =~= results.drop_last().remove(i));
        assert(results.remove(i).last() == results.last());
    }
}

/// A kind rests as long as its collector says, and one without a collector has no cadence.
pub proof fn law_collector_sets_the_cadence<C: Collector>(
    registry: CollectorRegistry<C>,
    kind: InfoKind,
)
    ensures
        registry.collectors().dom().contains(kind) ==> registry.cadence_of(kind)
            == registry.collectors()[kind].the_cadence(),
        !registry.collectors().dom().contains(kind) ==> registry.cadence_of(kind) is None,
{
}

/// A registry can be asked what is due if and only if no time at which a kind is due next is
/// past what a clock can count.
pub proof fn law_deadlines_are_within_the_clock<C: Collector>(
    registry: CollectorRegistry<C>,
    kind: InfoKind,
)
    requires
        registry.deadlines_fit(),
        registry.collectors().dom().contains(kind),
        registry.last_push().dom().contains(kind),
        registry.collectors()[kind].the_cadence() is Some,
    ensures
        registry.last_push()[kind].nanos + registry.collectors()[kind].the_cadence().unwrap().nanos
            <= u128::MAX,
{
    assert(registry.cadence_of(kind) is Some);
}

/// What is gathered comes one by one and in order: each success adds its snapshot, each failure
/// nothing.
pub proof fn law_every_success_is_reported(
    a: Seq<Result<InfoSnapshot, CollectError>>,
    b: Seq<Result<InfoSnapshot, CollectError>>,
    snapshot: InfoSnapshot,
    e: CollectError,
)
    ensures
        gathered(Seq::empty()) == Seq::<InfoSnapshot>::empty(),
        gathered(a.push(Ok(snapshot))) == gathered(a).push(snapshot),
        gathered(a.push(Err(e))) == gathered(a),
        gathered(a + b) == gathered(a) + gathered(b),
    decreases b.len(),
{
    let ok: Result<InfoSnapshot, CollectError> = Ok(snapshot);
    let err: Result<InfoSnapshot, CollectError> = Err(e);
    assert(a.push(ok).drop_last() =~= a);
    assert(a.push(err).drop_last() =~= a);
    if b.len() == 0 {
        assert(a + b =~= a);
        assert(gathered(a) + gathered(b) =~= gathered(a));
    } else {
        law_every_success_is_reported(a, b.drop_last(), snapshot, e);
        assert((a + b).drop_last() =~= a + b.drop_last());
        assert((a + b).last() == b.last());
        assert(gathered(a + b) =~= gathered(a) + gathered(b));
    }
}

/// The time stamp of a report is the number of milliseconds that are over since the epoch,
/// unless the clock is before it or too far past it.
pub proof fn law_stamp_counts_whole_milliseconds(since: Duration)
    ensures
        millis_since_epoch(None) == 0,
        since.nanos < 0x1_0000_0000_0000_0000 * 1_000_000 ==> millis_since_epoch(Some(since))
            * 1_000_000 <= since.nanos < (millis_since_epoch(Some(since)) + 1) * 1_000_000,
        since.nanos >= 0x1_0000_0000_0000_0000 * 1_000_000 ==> millis_since_epoch(Some(since)) == 0,
{
}

/// What the errors of a collector say.
pub proof fn law_collect_errors_have_their_words(what: String)
    ensures
        CollectError::Io(what).text() == "I/O error during collection: "@ + what@,
        CollectError::System(what).text() == "system API error during collection: "@ + what@,
        CollectError::NotSupported(what).text() == "collection not supported on this platform: "@
            + what@,
{
}

/// A registry whose clock can count to every time at which a kind is due next can be asked what
/// is due.
pub proof fn law_registry_within_the_clock_can_be_asked<C: Collector>(
    registry: CollectorRegistry<C>,
)
    requires
        forall|kind: InfoKind| #[trigger]
            registry.collectors().dom().contains(kind) && registry.last_push().dom().contains(kind)
                && registry.collectors()[kind].the_cadence() is Some
                ==> registry.last_push()[kind].nanos
                + registry.collectors()[kind].the_cadence().unwrap().nanos <= u128::MAX,
    ensures
        registry.deadlines_fit(),
{
}

} // verus!

//! Where telemetry goes on the server.
use vstd::prelude::*;

use crate::sysprobe::proto::{InfoKind, TelemetryReport};
use crate::text;

verus! {

/// Whose telemetry it is.
#[derive(Debug, Clone, PartialEq, Eq)]
pub struct SinkSource {
    pub session_id: u64,
    pub username: String,
    pub virtual_ip: Option<String>,
}

/// Why telemetry was not taken.
#[derive(Debug, Clone, PartialEq, Eq)]
pub enum SinkError {
    Io(String),
    Backend(String),
}

impl SinkError {
    /// The text of the error.
    pub open spec fn text(self) -> Seq<char> {
        match self {
            SinkError::Io(what) => "I/O error in telemetry sink: "@ + what@,
            SinkError::Backend(what) => "backend error in telemetry sink: "@ + what@,
        }
    }

    /// The error in words.
    pub fn message(&self) -> (r: String)
        ensures
            r@ == self.text(),
    {
        match self {
            SinkError::Io(what) => text::join2("I/O error in telemetry sink: ", what.as_str()),
            SinkError::Backend(what) => text::join2(
                "backend error in telemetry sink: ",
                what.as_str(),
            ),
        }
    }
}

/// The name under which a kind's number is logged.
pub open spec fn label_of(kind: i32) -> Seq<char> {
    match InfoKind::of_number(kind) {
        Some(k) => k.name(),
        None => "UNKNOWN"@,
    }
}

/// The name under which a kind's number is logged.
pub fn kind_label(kind: i32) -> (r: &'static str)
    ensures
        r@ == label_of(kind),
{
    match InfoKind::from_i32(kind) {
        Some(k) => k.as_str_name(),
        None => "UNKNOWN",
    }
}

/// A line of the log.
#[derive(Debug, Clone, PartialEq, Eq)]
pub struct SinkRecord {
    pub session_id: u64,
    pub username: String,
    pub kind: String,
    pub ts_ms: u64,
}

/// A sink that only logs what it gets.
#[derive(Debug, Clone, Copy, PartialEq, Eq, Structural)]
pub struct ConsoleSink;

impl Default for ConsoleSink {
    fn default() -> (s: ConsoleSink)
        ensures
            s == ConsoleSink,
    {
        ConsoleSink
    }
}

impl ConsoleSink {
    /// Takes a report: one line of the log for each item, in order. It never fails.
    pub fn store(&self, source: &SinkSource, report: &TelemetryReport) -> (r: Result<
        Vec<SinkRecord>,
        SinkError,
    >)
        ensures
            match r {
                Ok(lines) => {
                    &&& lines@.len() == report.items@.len()
                    &&& forall|i: int|
                        0 <= i < lines@.len() ==> {
                            &&& (#[trigger] lines@[i]).session_id == source.session_id
                            &&& lines@[i].username@ == source.username@
                            &&& lines@[i].kind@ == label_of(report.items@[i].kind)
                            &&& lines@[i].ts_ms == report.ts_ms
                        }
                },
                Err(_) => false,
            },
    {
        let mut lines: Vec<SinkRecord> = Vec::new();
        let mut i: usize = 0;
        while i < report.items.len()
            invariant
                i <= report.items@.len(),
                lines@.len() == i,
                forall|j: int|
                    0 <= j < i ==> {
                        &&& (#[trigger] lines@[j]).session_id == source.session_id
                        &&& lines@[j].username@ == source.username@
                        &&& lines@[j].kind@ == label_of(report.items@[j].kind)
                        &&& lines@[j].ts_ms == report.ts_ms
                    },
            decreases report.items@.len() - i,
        {
            lines.push(
                SinkRecord {
                    session_id: source.session_id,
                    username: source.username.clone(),
                    kind: kind_label(report.items[i].kind).to_string(),
                    ts_ms: report.ts_ms,
                },
            );
            i = i + 1;
        }
        Ok(lines)
    }
}

/// A number is logged under the name of the kind that it stands for, and one that stands for none
/// as unknown.
pub proof fn law_numbers_are_logged_by_name(n: i32)
    ensures
        label_of(0) == "PROCESS_SUMMARY"@,
        label_of(1) == "PROCESS_LIST"@,
        label_of(2) == "PORT_LIST"@,
        label_of(3) == "NETIF_LIST"@,
        label_of(4) == "DISK_INFO"@,
        !(0 <= n <= 4) ==> label_of(n) == "UNKNOWN"@,
{
}

/// What the errors of a sink say.
pub proof fn law_sink_errors_have_their_words(what: String)
    ensures
        SinkError::Io(what).text() == "I/O error in telemetry sink: "@ + what@,
        SinkError::Backend(what).text() == "backend error in telemetry sink: "@ + what@,
{
}

} // verus!

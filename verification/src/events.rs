//! Bootstrap engine events and their rendering as log lines.

use crate::text::{decimal, decimal_string, join_strings, joined, views};
use vstd::prelude::*;

verus! {

/// Severity of a log line.
#[derive(Debug, Clone, Copy, PartialEq, Eq, Structural)]
pub enum EventLevel {
    Info,
    Warn,
    Error,
}

/// How long the phases of one component took, in milliseconds.
#[derive(Debug, Clone, Copy, PartialEq, Eq, Structural)]
pub struct TimingBreakdown {
    pub render_duration_ms: u64,
    pub apply_duration_ms: u64,
    pub wait_duration_ms: u64,
}

/// An event emitted by the bootstrap engine. Instants and durations are
/// milliseconds; `R` is the engine's readiness report for a component.
/// A deferral carries the rendered (debug) text of its reason, and a k3s
/// download progress event the whole-percent label of its progress.
pub enum EventPayload<R> {
    Started { total_components: usize },
    ComponentStarted { id: String },
    ComponentProgress { id: String, status: R, elapsed_ms: u64 },
    ComponentCompleted { id: String, duration_ms: u64, timing_breakdown: TimingBreakdown },
    ComponentFailed { id: String, duration_ms: u64, error: String },
    ComponentDeferred { id: String, reason: String, affected_dependents: Vec<String> },
    Completed { total_duration_ms: u64, successful: usize, failed: usize, deferred: usize },
    K3sDownloadStarted,
    K3sDownloadProgress { percent_label: String },
    K3sDownloadCompleted,
    K3sInstallStarted,
    K3sInstallCompleted,
    K3sApiServerReady,
    K3sCoreDnsReady,
    K3sBootstrapCompleted,
}

/// One event on the bus: its sequence number, the time it was emitted
/// (milliseconds on the adapter's clock) and its payload.
pub struct BootstrapEvent<R> {
    pub seq: u64,
    pub timestamp_ms: u64,
    pub payload: EventPayload<R>,
}

/// The message for a cluster (k3s) initialisation event, if it is one.
pub open spec fn k3s_message<R>(p: EventPayload<R>) -> Option<Seq<char>> {
    match p {
        EventPayload::K3sDownloadStarted => Some("k3s download started"@),
        EventPayload::K3sDownloadProgress { percent_label } => Some(
            "k3s download "@ + percent_label@ + "%"@,
        ),
        EventPayload::K3sDownloadCompleted => Some("k3s download completed"@),
        EventPayload::K3sInstallStarted => Some("k3s install started"@),
        EventPayload::K3sInstallCompleted => Some("k3s install completed"@),
        EventPayload::K3sApiServerReady => Some("k3s API server ready"@),
        EventPayload::K3sCoreDnsReady => Some("k3s CoreDNS ready"@),
        EventPayload::K3sBootstrapCompleted => Some("k3s bootstrap completed"@),
        _ => None,
    }
}

/// The dependents part of a deferral message.
pub open spec fn dependents_text(deps: Seq<String>) -> Seq<char> {
    if deps.len() == 0 {
        "none"@
    } else {
        joined(views(deps), ", "@)
    }
}

/// The log line (level and message) for an event, if the event is logged.
pub open spec fn log_line<R>(p: EventPayload<R>) -> Option<(EventLevel, Seq<char>)> {
    match p {
        EventPayload::Started { total_components } => Some(
            (
                EventLevel::Info,
                "bootstrap started (components: "@ + decimal(total_components as nat) + ")"@,
            ),
        ),
        EventPayload::ComponentStarted { id } => Some(
            (EventLevel::Info, "component "@ + id@ + " started"@),
        ),
        EventPayload::ComponentProgress { .. } => None,
        EventPayload::ComponentCompleted { id, duration_ms, .. } => Some(
            (
                EventLevel::Info,
                "component "@ + id@ + " completed in "@ + decimal((duration_ms / 1000) as nat)
                    + "s"@,
            ),
        ),
        EventPayload::ComponentFailed { id, error, .. } => Some(
            (EventLevel::Error, "component "@ + id@ + " failed: "@ + error@),
        ),
        EventPayload::ComponentDeferred { id, reason, affected_dependents } => Some(
            (
                EventLevel::Warn,
                "component "@ + id@ + " deferred ("@ + reason@ + "); dependents: "@
                    + dependents_text(affected_dependents@),
            ),
        ),
        EventPayload::Completed { total_duration_ms, successful, failed, deferred } => Some(
            (
                if failed > 0 {
                    EventLevel::Warn
                } else {
                    EventLevel::Info
                },
                "bootstrap completed in "@ + decimal((total_duration_ms / 1000) as nat) + "s (ok: "@
                    + decimal(successful as nat) + ", failed: "@ + decimal(failed as nat)
                    + ", deferred: "@ + decimal(deferred as nat) + ")"@,
            ),
        ),
        _ => match k3s_message(p) {
            Some(m) => Some((EventLevel::Info, m)),
            None => None,
        },
    }
}

fn owned(s: &str) -> (r: String)
    ensures
        r@ == s@,
{
    s.to_owned()
}

/// The message printed for a cluster initialisation event; other events print nothing.
pub fn format_k3s_event<R>(payload: &EventPayload<R>) -> (r: Option<String>)
    ensures
        match k3s_message(*payload) {
            Some(m) => r matches Some(s) && s@ == m,
            None => r.is_none(),
        },
{
    match payload {
        EventPayload::K3sDownloadStarted => Some(owned("k3s download started")),
        EventPayload::K3sDownloadProgress { percent_label } => {
            let mut s = owned("k3s download ");
            s.append(percent_label.as_str());
            s.append("%");
            Some(s)
        },
        EventPayload::K3sDownloadCompleted => Some(owned("k3s download completed")),
        EventPayload::K3sInstallStarted => Some(owned("k3s install started")),
        EventPayload::K3sInstallCompleted => Some(owned("k3s install completed")),
        EventPayload::K3sApiServerReady => Some(owned("k3s API server ready")),
        EventPayload::K3sCoreDnsReady => Some(owned("k3s CoreDNS ready")),
        EventPayload::K3sBootstrapCompleted => Some(owned("k3s bootstrap completed")),
        _ => None,
    }
}

/// The log line recorded for a bootstrap event, if it is logged.
pub fn format_bootstrap_log<R>(payload: &EventPayload<R>) -> (r: Option<(EventLevel, String)>)
    ensures
        match log_line(*payload) {
            Some((level, m)) => r matches Some((l, s)) && l == level && s@ == m,
            None => r.is_none(),
        },
{
    match payload {
        EventPayload::Started { total_components } => {
            let mut s = owned("bootstrap started (components: ");
            s.append(decimal_string(*total_components as u64).as_str());
            s.append(")");
            Some((EventLevel::Info, s))
        },
        EventPayload::ComponentStarted { id } => {
            let mut s = owned("component ");
            s.append(id.as_str());
            s.append(" started");
            Some((EventLevel::Info, s))
        },
        EventPayload::ComponentProgress { .. } => None,
        EventPayload::ComponentCompleted { id, duration_ms, .. } => {
            let mut s = owned("component ");
            s.append(id.as_str());
            s.append(" completed in ");
            s.append(decimal_string(*duration_ms / 1000).as_str());
            s.append("s");
            Some((EventLevel::Info, s))
        },
        EventPayload::ComponentFailed { id, error, .. } => {
            let mut s = owned("component ");
            s.append(id.as_str());
            s.append(" failed: ");
            s.append(error.as_str());
            Some((EventLevel::Error, s))
        },
        EventPayload::ComponentDeferred { id, reason, affected_dependents } => {
            let dependents = if affected_dependents.len() == 0 {
                owned("none")
            } else {
                join_strings(affected_dependents, ", ")
            };
            let mut s = owned("component ");
            s.append(id.as_str());
            s.append(" deferred (");
            s.append(reason.as_str());
            s.append("); dependents: ");
            s.append(dependents.as_str());
            Some((EventLevel::Warn, s))
        },
        EventPayload::Completed { total_duration_ms, successful, failed, deferred } => {
            let level = if *failed > 0 {
                EventLevel::Warn
            } else {
                EventLevel::Info
            };
            let mut s = owned("bootstrap completed in ");
            s.append(decimal_string(*total_duration_ms / 1000).as_str());
            s.append("s (ok: ");
            s.append(decimal_string(*successful as u64).as_str());
            s.append(", failed: ");
            s.append(decimal_string(*failed as u64).as_str());
            s.append(", deferred: ");
            s.append(decimal_string(*deferred as u64).as_str());
            s.append(")");
            Some((level, s))
        },
        _ => match format_k3s_event(payload) {
            Some(m) => Some((EventLevel::Info, m)),
            None => None,
        },
    }
}

/// The level of a bootstrap log line: an error exactly for a failed
/// component; a warning exactly for a deferral or for a run that completed
/// with failures; information otherwise. Progress reports are not logged,
/// and the line of an event about one component starts by naming it.
pub proof fn lemma_log_levels<R>(p: EventPayload<R>)
    ensures
        p is ComponentProgress <==> log_line(p) is None,
        log_line(p) matches Some((level, _)) ==> ((level == EventLevel::Error) <==> p is ComponentFailed),
        log_line(p) matches Some((level, _)) ==> ((level == EventLevel::Warn) <==> (p is ComponentDeferred || (
        p matches EventPayload::Completed { failed, .. } && failed > 0))),
        p matches EventPayload::ComponentStarted { id } ==> log_line(p)->Some_0.1.take(10 + id@.len() as int)
            == "component "@ + id@,
        p matches EventPayload::ComponentCompleted { id, .. } ==> log_line(p)->Some_0.1.take(10 + id@.len() as int)
            == "component "@ + id@,
        p matches EventPayload::ComponentFailed { id, .. } ==> log_line(p)->Some_0.1.take(10 + id@.len() as int)
            == "component "@ + id@,
        p matches EventPayload::ComponentDeferred { id, .. } ==> log_line(p)->Some_0.1.take(10 + id@.len() as int)
            == "component "@ + id@,
{
    reveal_strlit("component ");
    match p {
        EventPayload::ComponentStarted { id } => {
            assert(("component "@ + id@ + " started"@).take(10 + id@.len() as int) =~= "component "@ + id@);
        },
        EventPayload::ComponentCompleted { id, duration_ms, .. } => {
            let t = "component "@ + id@ + " completed in "@ + decimal((duration_ms / 1000) as nat) + "s"@;
            assert(t.take(10 + id@.len() as int) =~= "component "@ + id@);
        },
        EventPayload::ComponentFailed { id, error, .. } => {
            assert(("component "@ + id@ + " failed: "@ + error@).take(10 + id@.len() as int) =~= "component "@ + id@);
        },
        EventPayload::ComponentDeferred { id, reason, affected_dependents } => {
            let t = "component "@ + id@ + " deferred ("@ + reason@ + "); dependents: "@ + dependents_text(
                affected_dependents@,
            );
            assert(t.take(10 + id@.len() as int) =~= "component "@ + id@);
        },
        _ => {},
    }
}

} // verus!

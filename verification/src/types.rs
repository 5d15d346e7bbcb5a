//! The engine's value records: probe targets and probe results.

use vstd::prelude::*;

verus! {

/// One network target to probe. Targets are immutable value records; the
/// registry stores an ordered sequence of them. The registry does not
/// enforce uniqueness of `id`: callers are responsible, and duplicate ids
/// make result attribution at the sink ambiguous.
pub struct Target {
    /// Opaque caller-assigned identifier, copied into every scheduled
    /// probe result for this target.
    pub id: String,
    /// Display label; the engine never reads it.
    pub name: String,
    /// Hostname or IP literal.
    pub host: String,
    /// Port, meaningful only for TCP probes.
    pub port: u16,
    /// Probe strategy selector: `"ping"` selects the ICMP probe, anything
    /// else (including the default `"tcp"`) the TCP connect probe.
    pub probe_type: String,
}

impl Clone for Target {
    fn clone(&self) -> (res: Self)
        ensures
            res == *self,
    {
        Target {
            id: self.id.clone(),
            name: self.name.clone(),
            host: self.host.clone(),
            port: self.port,
            probe_type: self.probe_type.clone(),
        }
    }
}

/// The probe strategy the `probe_type` string selects when a target is
/// created without one.
pub fn default_probe_type() -> (res: String)
    ensures
        res@ == "tcp"@,
{
    "tcp".to_owned()
}

/// The outcome of one probe attempt. Constructed per attempt, emitted once,
/// never retained by the engine.
pub struct ProbeResult {
    /// The originating target's `id` when probed via the scheduler; empty
    /// when produced by the stateless on-demand entry point.
    pub id: String,
    /// Whether the probe succeeded.
    pub ok: bool,
    /// Wall-clock duration of the attempt in milliseconds, or the latency
    /// parsed from ping's output.
    pub latency_ms: u64,
    /// Failure tag or underlying error text; present exactly when `ok` is
    /// false.
    pub error: Option<String>,
    /// Milliseconds since the Unix epoch, captured at probe start.
    pub timestamp: u64,
}

impl Clone for ProbeResult {
    fn clone(&self) -> (res: Self)
        ensures
            res == *self,
    {
        ProbeResult {
            id: self.id.clone(),
            ok: self.ok,
            latency_ms: self.latency_ms,
            error: match &self.error {
                Some(e) => Some(e.clone()),
                None => None,
            },
            timestamp: self.timestamp,
        }
    }
}

/// A result is well-formed when an error message is present exactly on
/// failure.
pub open spec fn result_wf(r: ProbeResult) -> bool {
    r.ok <==> r.error is None
}

} // verus!

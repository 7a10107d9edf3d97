//! Core data model: catalog candidates, probe outcomes, and the latency
//! averaging rule.

use vstd::prelude::*;

verus! {

/// One candidate name-resolution server from the static catalog.
pub struct Candidate {
    /// Human-readable provider name, used only for reporting.
    pub name: String,
    /// Address the interface would be configured with.
    pub address: String,
}

/// Result classification of one probe.
///
/// `latency` on an outcome is meaningful only under `Success`.
#[derive(Clone, Copy, PartialEq, Eq, Structural, Debug)]
pub enum ProbeStatus {
    Success,
    Unreachable,
    Timeout,
}

/// Outcome of probing one candidate. Latency is kept in microseconds.
pub struct ProbeOutcome {
    pub candidate: Candidate,
    pub latency_micros: u64,
    pub status: ProbeStatus,
}

impl Clone for Candidate {
    fn clone(&self) -> (r: Self)
        ensures
            r == *self,
    {
        Candidate { name: self.name.clone(), address: self.address.clone() }
    }
}

impl Clone for ProbeOutcome {
    fn clone(&self) -> (r: Self)
        ensures
            r == *self,
    {
        ProbeOutcome {
            candidate: self.candidate.clone(),
            latency_micros: self.latency_micros,
            status: self.status,
        }
    }
}

/// Status of a probe, from what the echo command reported.
pub open spec fn probe_status(echo_succeeded: bool, timed_out: bool) -> ProbeStatus {
    if timed_out {
        ProbeStatus::Timeout
    } else if !echo_succeeded {
        ProbeStatus::Unreachable
    } else {
        ProbeStatus::Success
    }
}

/// Build the outcome of one candidate's probe from the raw measurement: the
/// wall-clock time of the whole fixed-count echo command and whether it
/// succeeded or timed out.  A failed probe still yields an outcome; it is
/// never dropped.
pub fn probe_outcome(
    candidate: Candidate,
    elapsed_total_micros: u64,
    round_trips: u64,
    echo_succeeded: bool,
    timed_out: bool,
) -> (o: ProbeOutcome)
    requires
        round_trips > 0,
    ensures
        o.candidate == candidate,
        o.status == probe_status(echo_succeeded, timed_out),
        o.latency_micros == elapsed_total_micros / round_trips,
{
    let status = if timed_out {
        ProbeStatus::Timeout
    } else if !echo_succeeded {
        ProbeStatus::Unreachable
    } else {
        ProbeStatus::Success
    };
    let latency_micros = mean_latency_micros(elapsed_total_micros, round_trips);
    ProbeOutcome { candidate, latency_micros, status }
}

/// Mean round-trip latency over a fixed number of echo round trips.
///
/// The measured quantity is deliberately the wall-clock time of the whole
/// fixed-count probe divided by the round-trip count (floor division on
/// microseconds), which folds command start-up overhead into the estimate;
/// this matches the stated measurement semantics of the tool.
pub fn mean_latency_micros(total_elapsed_micros: u64, round_trips: u64) -> (r: u64)
    requires
        round_trips > 0,
    ensures
        r == total_elapsed_micros / round_trips,
{
    total_elapsed_micros / round_trips
}

} // verus!

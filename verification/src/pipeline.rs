//! Pipeline driver: the state machine that sequences one run.
//!
//! `read initial state -> reset to automatic -> probe every candidate ->
//! rank -> apply the winner (or skip the apply when no candidate was
//! reachable) -> read final state`.  The driver itself performs no outside
//! work: each `step` consumes the event the last action produced and returns
//! the next action for the caller to perform.  Per-candidate probe failures
//! are absorbed as outcomes and never abort the run; a failed read, reset or
//! apply moves the machine to its terminal failed stage at once, and no later
//! action is ever requested after that.

use vstd::prelude::*;
use crate::model::Candidate;
use crate::model::ProbeOutcome;
use crate::model::probe_outcome;
use crate::model::probe_status;
use crate::rank::rank;
use crate::rank::rank_spec;
use crate::rank::ranked_winner;
use crate::rank::winner_of;
use crate::rank::select_winner;
use crate::rank::lemma_winner_exists;
use crate::config::read_view;
use crate::config::reset_transition;

verus! {

/// The fatal error kinds.  Per-candidate probe failures are not here: they
/// are ordinary outcomes.
#[derive(Clone, Copy, PartialEq, Eq, Structural, Debug)]
pub enum PipelineError {
    /// a required external tool is missing
    CommandUnavailable,
    /// the current-state query failed or its output could not be read
    ReadFailed,
    /// a configuration mutation (reset or apply) failed
    ApplyFailed,
}

/// The stages of one run.
#[derive(Clone, Copy, PartialEq, Eq, Structural, Debug)]
pub enum Stage {
    Init,
    ReadInitial,
    ResetAutomatic,
    Probing,
    Applying,
    NoneFound,
    ReadFinal,
    Done,
    Failed,
}

/// The outside work the driver requests next.
pub enum Action {
    /// query the current resolver configuration of the interface
    ReadState,
    /// clear the manual configuration, then wait the settle delay
    ResetConfig,
    /// run the given number of echo round trips against the address
    ProbeHost { name: String, address: String, round_trips: u64 },
    /// set the resolver list to this one address, then wait the settle delay
    ApplyConfig { address: String },
    /// nothing: the run is over
    Halt,
}

/// What the outside work reported back.
pub enum Event {
    /// begin the run
    Start,
    /// the configuration read returned these addresses, in order
    StateRead { servers: Vec<String> },
    /// the echo command for the current candidate finished: its total
    /// wall-clock time, whether any round trip succeeded, and whether it
    /// timed out
    ProbeMeasured { elapsed_total_micros: u64, echo_succeeded: bool, timed_out: bool },
    /// the reset took effect (settle delay included)
    ResetApplied,
    /// the apply took effect (settle delay included)
    ConfigApplied,
    /// a read, reset or apply failed fatally
    OpFailed { error: PipelineError },
}

/// One run of the probe -> rank -> apply pipeline.
pub struct Pipeline {
    pub stage: Stage,
    pub catalog: Vec<Candidate>,
    pub round_trips: u64,
    pub outcomes: Vec<ProbeOutcome>,
    pub ranked: Vec<ProbeOutcome>,
    pub winner: Option<String>,
    pub initial_servers: Vec<String>,
    pub final_servers: Vec<String>,
    pub error: Option<PipelineError>,
}

/// The stages at which ranking has happened.
pub open spec fn ranking_done(stage: Stage) -> bool {
    stage is Applying || stage is NoneFound || stage is ReadFinal || stage is Done
}

/// The (stage, event) pairs a correct caller produces; any other event
/// leaves the machine unchanged.
pub open spec fn expected(stage: Stage, event: Event) -> bool {
    ||| stage is Init && event is Start
    ||| stage is ReadInitial && event is StateRead
    ||| (stage is ReadInitial || stage is ResetAutomatic || stage is Applying
        || stage is ReadFinal || stage is NoneFound) && event is OpFailed
    ||| stage is ResetAutomatic && event is ResetApplied
    ||| stage is Probing && event is ProbeMeasured
    ||| stage is Applying && event is ConfigApplied
    ||| (stage is ReadFinal || stage is NoneFound) && event is StateRead
}

/// The probe results of the run are unchanged: outcomes, ranking and winner.
pub open spec fn keeps_results(pre: Pipeline, post: Pipeline) -> bool {
    &&& post.outcomes == pre.outcomes
    &&& post.ranked == pre.ranked
    &&& post.winner == pre.winner
}

/// The recorded configuration reads and the error are unchanged.
pub open spec fn keeps_reads(pre: Pipeline, post: Pipeline) -> bool {
    &&& post.initial_servers == pre.initial_servers
    &&& post.final_servers == pre.final_servers
    &&& post.error == pre.error
}

impl Pipeline {
    /// Well-formedness: outcomes correspond 1:1, in order, to the probed
    /// prefix of the catalog; once ranking has happened, `ranked` and
    /// `winner` are exactly what the ranking engine yields from the full
    /// outcome sequence; the machine is failed exactly when it carries an
    /// error.
    pub open spec fn wf(self) -> bool {
        &&& self.round_trips > 0
        &&& self.outcomes@.len() <= self.catalog@.len()
        &&& (forall|i: int|
            0 <= i < self.outcomes@.len() ==> (#[trigger] self.outcomes@[i]).candidate
                == self.catalog@[i])
        &&& ((self.stage is Init || self.stage is ReadInitial || self.stage is ResetAutomatic)
            ==> self.outcomes@.len() == 0)
        &&& (self.stage is Probing ==> self.outcomes@.len() < self.catalog@.len())
        &&& (ranking_done(self.stage) ==> {
            &&& self.outcomes@.len() == self.catalog@.len()
            &&& self.ranked@ == rank_spec(self.outcomes@)
            &&& (match self.winner {
                Some(a) => ranked_winner(self.ranked@) == Some(a@),
                None => ranked_winner(self.ranked@) is None,
            })
        })
        &&& (self.stage is Applying ==> self.winner is Some)
        &&& (self.stage is NoneFound ==> self.winner is None)
        &&& (self.stage is Failed <==> self.error is Some)
    }

    /// After the probing cursor moved: either the next candidate is probed,
    /// or — the catalog being exhausted — the outcomes are ranked and the
    /// winner applied, the no-winner branch skipping the apply.
    pub open spec fn probing_advanced(self, action: Action) -> bool {
        if self.outcomes@.len() < self.catalog@.len() {
            &&& self.stage is Probing
            &&& action matches Action::ProbeHost { name, address, round_trips }
                && name@ == self.catalog@[self.outcomes@.len() as int].name@
                && address@ == self.catalog@[self.outcomes@.len() as int].address@
                && round_trips == self.round_trips
        } else {
            &&& self.ranked@ == rank_spec(self.outcomes@)
            &&& (winner_of(self.outcomes@) is Some ==> {
                &&& self.stage is Applying
                &&& action matches Action::ApplyConfig { address } && Some(address@) == winner_of(
                    self.outcomes@,
                )
            })
            &&& (winner_of(self.outcomes@) is None ==> self.stage is NoneFound
                && action is ReadState)
        }
    }

    /// A fresh run over the given catalog.
    pub fn new(catalog: Vec<Candidate>, round_trips: u64) -> (p: Pipeline)
        requires
            round_trips > 0,
        ensures
            p.wf(),
            p.stage is Init,
            p.catalog == catalog,
            p.round_trips == round_trips,
            p.outcomes@.len() == 0,
            p.ranked@.len() == 0,
            p.winner is None,
            p.initial_servers@.len() == 0,
            p.final_servers@.len() == 0,
            p.error is None,
    {
        Pipeline {
            stage: Stage::Init,
            catalog,
            round_trips,
            outcomes: Vec::new(),
            ranked: Vec::new(),
            winner: None,
            initial_servers: Vec::new(),
            final_servers: Vec::new(),
            error: None,
        }
    }

    /// Move the probing cursor: request the next probe, or rank and decide.
    fn advance(&mut self) -> (action: Action)
        requires
            old(self).round_trips > 0,
            old(self).outcomes@.len() <= old(self).catalog@.len(),
            forall|i: int|
                0 <= i < old(self).outcomes@.len() ==> (#[trigger] old(self).outcomes@[i]).candidate
                    == old(self).catalog@[i],
            old(self).error is None,
        ensures
            final(self).wf(),
            final(self).probing_advanced(action),
            final(self).catalog == old(self).catalog,
            final(self).round_trips == old(self).round_trips,
            final(self).outcomes == old(self).outcomes,
            final(self).initial_servers == old(self).initial_servers,
            final(self).final_servers == old(self).final_servers,
            final(self).error == old(self).error,
    {
        if self.outcomes.len() < self.catalog.len() {
            self.stage = Stage::Probing;
            let idx = self.outcomes.len();
            let next = &self.catalog[idx];
            Action::ProbeHost {
                name: next.name.clone(),
                address: next.address.clone(),
                round_trips: self.round_trips,
            }
        } else {
            let ranked = rank(clone_outcomes(&self.outcomes));
            let w = select_winner(&ranked);
            self.ranked = ranked;
            self.winner = w;
            match &self.winner {
                Some(address) => {
                    self.stage = Stage::Applying;
                    Action::ApplyConfig { address: address.clone() }
                },
                None => {
                    self.stage = Stage::NoneFound;
                    Action::ReadState
                },
            }
        }
    }

    /// Consume the event the last action produced and return the next
    /// action.
    pub fn step(&mut self, event: Event) -> (action: Action)
        requires
            old(self).wf(),
        ensures
            final(self).wf(),
            final(self).catalog == old(self).catalog,
            final(self).round_trips == old(self).round_trips,
            (old(self).stage is Init && event is Start) ==> (final(self).stage is ReadInitial
                && action is ReadState && keeps_results(*old(self), *final(self))
                && keeps_reads(*old(self), *final(self))),
            old(self).stage is ReadInitial ==> (event matches Event::StateRead { servers }
                ==> (final(self).stage is ResetAutomatic && final(self).initial_servers == servers
                && action is ResetConfig && keeps_results(*old(self), *final(self))
                && final(self).final_servers == old(self).final_servers
                && final(self).error == old(self).error)),
            (old(self).stage is ReadInitial || old(self).stage is ResetAutomatic
                || old(self).stage is Applying || old(self).stage is ReadFinal
                || old(self).stage is NoneFound) ==> (event matches Event::OpFailed { error }
                ==> (final(self).stage is Failed && final(self).error == Some(error)
                && action is Halt && keeps_results(*old(self), *final(self))
                && final(self).initial_servers == old(self).initial_servers
                && final(self).final_servers == old(self).final_servers)),
            (old(self).stage is ResetAutomatic && event is ResetApplied)
                ==> (final(self).outcomes@.len() == 0 && final(self).probing_advanced(action)
                && keeps_reads(*old(self), *final(self))),
            old(self).stage is Probing ==> (event matches Event::ProbeMeasured {
                elapsed_total_micros,
                echo_succeeded,
                timed_out,
            } ==> {
                &&& final(self).outcomes@.len() == old(self).outcomes@.len() + 1
                &&& final(self).outcomes@.last().candidate
                    == old(self).catalog@[old(self).outcomes@.len() as int]
                &&& final(self).outcomes@.last().status == probe_status(echo_succeeded, timed_out)
                &&& final(self).outcomes@.last().latency_micros
                    == elapsed_total_micros / old(self).round_trips
                &&& final(self).outcomes@.take(old(self).outcomes@.len() as int)
                    == old(self).outcomes@
                &&& final(self).probing_advanced(action)
                &&& keeps_reads(*old(self), *final(self))
            }),
            (old(self).stage is Applying && event is ConfigApplied)
                ==> (final(self).stage is ReadFinal && action is ReadState
                && keeps_results(*old(self), *final(self))
                && keeps_reads(*old(self), *final(self))),
            (old(self).stage is ReadFinal || old(self).stage is NoneFound)
                ==> (event matches Event::StateRead { servers } ==> (final(self).stage is Done
                && final(self).final_servers == servers && action is Halt
                && keeps_results(*old(self), *final(self))
                && final(self).initial_servers == old(self).initial_servers
                && final(self).error == old(self).error)),
            !expected(old(self).stage, event) ==> (*final(self) == *old(self) && action is Halt),
    {
        match (self.stage, event) {
            (Stage::Init, Event::Start) => {
                self.stage = Stage::ReadInitial;
                Action::ReadState
            },
            (Stage::ReadInitial, Event::StateRead { servers }) => {
                self.initial_servers = servers;
                self.stage = Stage::ResetAutomatic;
                Action::ResetConfig
            },
            (
                Stage::ReadInitial
                | Stage::ResetAutomatic
                | Stage::Applying
                | Stage::ReadFinal
                | Stage::NoneFound,
                Event::OpFailed { error },
            ) => {
                self.stage = Stage::Failed;
                self.error = Some(error);
                Action::Halt
            },
            (Stage::ResetAutomatic, Event::ResetApplied) => { self.advance() },
            (
                Stage::Probing,
                Event::ProbeMeasured { elapsed_total_micros, echo_succeeded, timed_out },
            ) => {
                let idx = self.outcomes.len();
                let candidate = self.catalog[idx].clone();
                let outcome = probe_outcome(
                    candidate,
                    elapsed_total_micros,
                    self.round_trips,
                    echo_succeeded,
                    timed_out,
                );
                self.outcomes.push(outcome);
                proof {
                    assert(self.outcomes@.take(old(self).outcomes@.len() as int)
                        =~= old(self).outcomes@);
                }
                self.advance()
            },
            (Stage::Applying, Event::ConfigApplied) => {
                self.stage = Stage::ReadFinal;
                Action::ReadState
            },
            (Stage::ReadFinal | Stage::NoneFound, Event::StateRead { servers }) => {
                self.final_servers = servers;
                self.stage = Stage::Done;
                Action::Halt
            },
            _ => Action::Halt,
        }
    }
}

/// Copy a sequence of outcomes for ranking, leaving the catalog-ordered
/// original in place.
fn clone_outcomes(v: &Vec<ProbeOutcome>) -> (r: Vec<ProbeOutcome>)
    ensures
        r@ == v@,
{
    let mut r: Vec<ProbeOutcome> = Vec::new();
    let mut i: usize = 0;
    while i < v.len()
        invariant
            i <= v.len(),
            r@ =~= v@.take(i as int),
        decreases v.len() - i,
    {
        r.push(v[i].clone());
        proof {
            assert(r@ =~= v@.take(i + 1));
        }
        i += 1;
    }
    proof {
        assert(v@.take(v@.len() as int) =~= v@);
    }
    r
}

/// If every candidate's probe fails there is no winner: the run reaches the
/// no-resolver branch, requests no apply, and the configuration — reset to
/// automatic at the start of the run and not touched since — reads back as
/// the empty sequence.
pub proof fn lemma_all_failed_stays_automatic(outcomes: Seq<ProbeOutcome>, prior: Seq<Seq<char>>)
    requires
        forall|i: int| 0 <= i < outcomes.len() ==> !((#[trigger] outcomes[i]).status is Success),
    ensures
        winner_of(outcomes) is None,
        read_view(reset_transition(prior)) == Seq::<Seq<char>>::empty(),
{
    lemma_winner_exists(outcomes);
}

} // verus!

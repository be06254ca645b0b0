//! The decisions one seat takes during a dispatch: what a model attempt came
//! to, whether the single corrective retry fires, what a failed seat reports,
//! which completion record an attempt leaves, and how an attempt's outcome
//! moves the rotation.
//!
//! The awaiting (provider calls under a timer, the lineage registry) happens
//! outside the library; it hands each observation here as an event and acts
//! on the step it gets back.

use std::time::Duration;
use vstd::prelude::*;
use crate::error::{Lineage, MagiError, ProviderError, magi_error_text, provider_error_text};
use crate::orchestrator::{
    CrateDefectRecord, ExtractionFailureCause, ModelOutcome, ParseFailure, RotationKind,
    agent_timeout_message, crate_defect_of, external_failure_detail, is_connection_spec,
    no_generation_observation, oversized_detail, provider_err_outcome, outcome_spec,
    timeout_message_text, CRATE_DEFECT_HYPOTHESIS,
};
use crate::error::external_kind_debug;
use crate::schema::{AgentName, AgentOutput, agent_display};
use crate::telemetry::{CompletionRecord, CompletionTelemetry, FinishReason};
use crate::text::{chars_of, dec_text, push_str, string_of};

verus! {

/// Which of a model's (at most two) calls an event belongs to.
#[derive(Debug, Clone, Copy, PartialEq, Eq, Structural)]
pub enum AttemptPhase {
    /// The first call on this model.
    First,
    /// The single corrective retry on the same model.
    CorrectiveRetry,
}

/// What one call on a model came to, as the dispatch loop observed it.
#[derive(Debug)]
pub enum AttemptEvent {
    /// The configured timeout cut the call.
    TimedOut,
    /// The provider surfaced a failure.
    ProviderFailed(ProviderError),
    /// The response parsed and validated.
    Accepted(AgentOutput),
    /// The response was rejected by extraction or validation.
    Rejected(ParseFailure),
}

/// A rejected response, attributed to the model that produced it and to the
/// call (1 or 2) on that model.
#[derive(Debug, Clone, PartialEq, Eq)]
pub struct ExtractionFailure {
    pub model: String,
    pub attempt: u8,
    pub cause: ExtractionFailureCause,
}

/// The call number of a phase: the counter restarts at 1 on every model.
pub open spec fn attempt_number(phase: AttemptPhase) -> int {
    match phase {
        AttemptPhase::First => 1,
        AttemptPhase::CorrectiveRetry => 2,
    }
}

/// A failure triggers the corrective retry only when it is one of the two
/// variants an extraction failure maps to.
pub open spec fn is_retried_kind(e: MagiError) -> bool {
    e is Validation || e is Deserialization
}

/// The reason a failed corrective retry reports.
pub open spec fn retry_failed_text(t: Seq<char>) -> Seq<char> {
    "retry-failed: "@ + t
}

/// The failure record an event leaves: one exactly for a rejected response.
pub open spec fn failure_record_spec(
    phase: AttemptPhase,
    model: Seq<char>,
    event: AttemptEvent,
    failure: Option<ExtractionFailure>,
) -> bool {
    match event {
        AttemptEvent::Rejected(f) => failure matches Some(x) && x.model@ == model
            && x.attempt == attempt_number(phase) && x.cause == f.cause,
        _ => failure is None,
    }
}

fn failure_record(phase: AttemptPhase, model: &str, cause: ExtractionFailureCause) -> (r:
    ExtractionFailure)
    ensures
        r.model@ == model@,
        r.attempt == attempt_number(phase),
        r.cause == cause,
{
    let attempt: u8 = match phase {
        AttemptPhase::First => 1,
        AttemptPhase::CorrectiveRetry => 2,
    };
    ExtractionFailure { model: string_of(&chars_of(model)), attempt, cause }
}

fn retry_failed(t: &str) -> (r: String)
    ensures
        r@ == retry_failed_text(t@),
{
    let mut out: Vec<char> = Vec::new();
    push_str(&mut out, "retry-failed: ");
    push_str(&mut out, t);
    string_of(&out)
}

fn is_retried_error(e: &MagiError) -> (b: bool)
    ensures
        b == is_retried_kind(*e),
{
    match e {
        MagiError::Validation(_) | MagiError::Deserialization(_) => true,
        _ => false,
    }
}

// ---------------------------------------------------------------------------
// A seat without rotation
// ---------------------------------------------------------------------------

/// What a seat without rotation does next.
#[derive(Debug)]
pub enum SeatStep {
    /// The seat answered.
    Succeeded(AgentOutput),
    /// Send the corrective retry, with feedback built from this cause and text.
    RetryWithFeedback { cause: ExtractionFailureCause, feedback: String },
    /// The seat failed with this reason; `defect` is set when the failure is a
    /// defect of this crate, which the caller raises to abort the run.
    Failed { reason: String, defect: Option<CrateDefectRecord> },
}

/// A step and the failure record the event leaves.
#[derive(Debug)]
pub struct SeatDecision {
    pub step: SeatStep,
    pub failure: Option<ExtractionFailure>,
}

/// The defect a provider failure records: exactly a generation that never
/// happened, attributed to the seat and the model in force.
pub open spec fn defect_spec(
    e: ProviderError,
    agent: AgentName,
    model: Seq<char>,
    defect: Option<CrateDefectRecord>,
) -> bool {
    &&& (defect is Some <==> e is NoGeneration)
    &&& (defect matches Some(d) ==> d.agent == agent && d.model@ == model && d.hypothesis@
        == CRATE_DEFECT_HYPOTHESIS@ && d.observation@ == no_generation_observation(
        e->done_reason,
    ))
}

/// The step a seat without rotation takes on an event.
pub open spec fn seat_step_spec(
    phase: AttemptPhase,
    retry_enabled: bool,
    timeout: Duration,
    agent: AgentName,
    model: Seq<char>,
    event: AttemptEvent,
    d: SeatDecision,
) -> bool {
    &&& failure_record_spec(phase, model, event, d.failure)
    &&& match event {
        AttemptEvent::TimedOut => d.step matches SeatStep::Failed { reason, defect } && reason@
            == timeout_message_text(phase == AttemptPhase::CorrectiveRetry, timeout)
            && defect is None,
        AttemptEvent::ProviderFailed(e) => d.step matches SeatStep::Failed { reason, defect }
            && reason@ == (if phase == AttemptPhase::First {
            provider_error_text(e)
        } else {
            retry_failed_text(provider_error_text(e))
        }) && defect_spec(e, agent, model, defect),
        AttemptEvent::Accepted(out) => d.step == SeatStep::Succeeded(out),
        AttemptEvent::Rejected(f) => if phase == AttemptPhase::First && retry_enabled
            && is_retried_kind(f.error) {
            d.step matches SeatStep::RetryWithFeedback { cause, feedback } && cause == f.cause
                && feedback@ == magi_error_text(f.error)
        } else {
            d.step matches SeatStep::Failed { reason, defect } && defect is None && (!(
            f.error is Io) ==> reason@ == (if phase == AttemptPhase::First {
                magi_error_text(f.error)
            } else {
                retry_failed_text(magi_error_text(f.error))
            }))
        },
    }
}

/// One step of a seat dispatched without rotation: the first call, then at
/// most one corrective retry on the same model.
///
/// A rejected first response is retried only when retrying is enabled and
/// the failure is a validation or deserialization error; otherwise the
/// error's text is the reason. A failure of the retry is prefixed
/// `retry-failed: `. A provider failure never retries, and a generation that
/// never happened is reported as a defect of this crate.
pub fn seat_step(
    phase: AttemptPhase,
    retry_enabled: bool,
    timeout: Duration,
    agent: AgentName,
    model: &str,
    event: AttemptEvent,
) -> (d: SeatDecision)
    ensures
        seat_step_spec(phase, retry_enabled, timeout, agent, model@, event, d),
{
    let is_retry = match phase {
        AttemptPhase::First => false,
        AttemptPhase::CorrectiveRetry => true,
    };
    match event {
        AttemptEvent::TimedOut => SeatDecision {
            step: SeatStep::Failed { reason: agent_timeout_message(is_retry, timeout), defect: None },
            failure: None,
        },
        AttemptEvent::ProviderFailed(e) => {
            let text = e.message();
            let reason = if is_retry {
                retry_failed(text.as_str())
            } else {
                text
            };
            let defect = crate_defect_of(e, agent, model);
            SeatDecision { step: SeatStep::Failed { reason, defect }, failure: None }
        },
        AttemptEvent::Accepted(out) => SeatDecision { step: SeatStep::Succeeded(out), failure: None },
        AttemptEvent::Rejected(f) => {
            let failure = Some(failure_record(phase, model, f.cause));
            let text = f.error.message();
            if !is_retry && retry_enabled && is_retried_error(&f.error) {
                SeatDecision {
                    step: SeatStep::RetryWithFeedback { cause: f.cause, feedback: text },
                    failure,
                }
            } else {
                let reason = if is_retry {
                    retry_failed(text.as_str())
                } else {
                    text
                };
                SeatDecision { step: SeatStep::Failed { reason, defect: None }, failure }
            }
        },
    }
}

// ---------------------------------------------------------------------------
// One model attempt on the rotating path
// ---------------------------------------------------------------------------

/// What the rotating path does after one call on a model.
#[derive(Debug)]
pub enum ModelStep {
    /// The model attempt is over with this outcome.
    Finished(ModelOutcome),
    /// Send the corrective retry on the same model.
    RetryWithFeedback { cause: ExtractionFailureCause, feedback: String },
}

/// A model step and the failure record the event leaves.
#[derive(Debug)]
pub struct ModelDecision {
    pub step: ModelStep,
    pub failure: Option<ExtractionFailure>,
}

/// The step one call on a model leads to on the rotating path.
pub open spec fn model_step_spec(
    phase: AttemptPhase,
    retry_enabled: bool,
    timeout: Duration,
    model: Seq<char>,
    event: AttemptEvent,
    d: ModelDecision,
) -> bool {
    &&& failure_record_spec(phase, model, event, d.failure)
    &&& match event {
        AttemptEvent::TimedOut => d.step matches ModelStep::Finished(o) && o matches ModelOutcome::Transport {
            detail,
            connection,
            kind,
        } && detail@ == timeout_message_text(phase == AttemptPhase::CorrectiveRetry, timeout)
            && !connection && kind == RotationKind::Timeout,
        AttemptEvent::ProviderFailed(e) => d.step matches ModelStep::Finished(o) && outcome_spec(
            e,
            o,
        ),
        AttemptEvent::Accepted(out) => d.step == ModelStep::Finished(ModelOutcome::Success(out)),
        AttemptEvent::Rejected(f) => if phase == AttemptPhase::CorrectiveRetry {
            d.step matches ModelStep::Finished(o) && o matches ModelOutcome::Schema(t) && (!(
            f.error is Io) ==> t@ == retry_failed_text(magi_error_text(f.error)))
        } else if !is_retried_kind(f.error) {
            d.step matches ModelStep::Finished(o) && o matches ModelOutcome::Unexpected(t) && (!(
            f.error is Io) ==> t@ == magi_error_text(f.error))
        } else if !retry_enabled {
            d.step matches ModelStep::Finished(o) && o matches ModelOutcome::Schema(t) && t@
                == magi_error_text(f.error)
        } else {
            d.step matches ModelStep::RetryWithFeedback { cause, feedback } && cause == f.cause
                && feedback@ == magi_error_text(f.error)
        },
    }
}

/// One step of a model attempt on the rotating path, including the single
/// corrective retry on the same model. It never rotates: the caller decides
/// that from the outcome.
///
/// A timeout is a run-wide transport failure that is not connection-class; a
/// provider failure is routed by `provider_err_outcome`; a rejected first
/// response retries when retrying is enabled, rotates at once as a schema
/// failure when it is not, and is surfaced unrotated when it is neither
/// validation nor deserialization; a rejected retry is a schema failure
/// prefixed `retry-failed: `.
pub fn model_step(
    phase: AttemptPhase,
    retry_enabled: bool,
    timeout: Duration,
    model: &str,
    event: AttemptEvent,
) -> (d: ModelDecision)
    ensures
        model_step_spec(phase, retry_enabled, timeout, model@, event, d),
{
    let is_retry = match phase {
        AttemptPhase::First => false,
        AttemptPhase::CorrectiveRetry => true,
    };
    match event {
        AttemptEvent::TimedOut => ModelDecision {
            step: ModelStep::Finished(
                ModelOutcome::Transport {
                    detail: agent_timeout_message(is_retry, timeout),
                    connection: false,
                    kind: RotationKind::Timeout,
                },
            ),
            failure: None,
        },
        AttemptEvent::ProviderFailed(e) => ModelDecision {
            step: ModelStep::Finished(provider_err_outcome(e)),
            failure: None,
        },
        AttemptEvent::Accepted(out) => ModelDecision {
            step: ModelStep::Finished(ModelOutcome::Success(out)),
            failure: None,
        },
        AttemptEvent::Rejected(f) => {
            let failure = Some(failure_record(phase, model, f.cause));
            let text = f.error.message();
            if is_retry {
                ModelDecision {
                    step: ModelStep::Finished(ModelOutcome::Schema(retry_failed(text.as_str()))),
                    failure,
                }
            } else if !is_retried_error(&f.error) {
                ModelDecision { step: ModelStep::Finished(ModelOutcome::Unexpected(text)), failure }
            } else if !retry_enabled {
                ModelDecision { step: ModelStep::Finished(ModelOutcome::Schema(text)), failure }
            } else {
                ModelDecision {
                    step: ModelStep::RetryWithFeedback { cause: f.cause, feedback: text },
                    failure,
                }
            }
        },
    }
}

// ---------------------------------------------------------------------------
// What an outcome does to the seat
// ---------------------------------------------------------------------------

/// How far a failed lineage is condemned.
#[derive(Debug, Clone, Copy, PartialEq, Eq, Structural)]
pub enum Condemnation {
    /// Only this seat gives up the lineage; the other seats keep it.
    MageLocal,
    /// The lineage is condemned for the whole run; `connection` feeds the
    /// endpoint-down latch.
    RunWide { connection: bool },
}

/// What the rotating seat does with a model attempt's outcome.
#[derive(Debug)]
pub enum SeatDisposition {
    /// Commit the verdict; the seat keeps its lineage.
    Commit(AgentOutput),
    /// Release the seat and surface this reason; never rotate.
    Surface(String),
    /// Release the seat, latch this defect of the crate so the run aborts, and
    /// report `reason` on the seat's own channel. Never rotates.
    AbortRun { defect: CrateDefectRecord, reason: String },
    /// Condemn the current lineage as stated and try to rotate, recording the
    /// hop with this kind and detail.
    Rotate { condemn: Condemnation, kind: RotationKind, detail: String },
}

/// What each outcome does to the seat.
pub open spec fn disposition_spec(
    outcome: ModelOutcome,
    agent: AgentName,
    model: Seq<char>,
    d: SeatDisposition,
) -> bool {
    match outcome {
        ModelOutcome::Success(out) => d == SeatDisposition::Commit(out),
        ModelOutcome::Unexpected(t) => d matches SeatDisposition::Surface(r) && r@ == t@,
        ModelOutcome::CrateDefect { observation, hypothesis } => d matches SeatDisposition::AbortRun {
            defect,
            reason,
        } && defect.observation@ == observation@ && defect.hypothesis == hypothesis
            && defect.agent == agent && defect.model@ == model && reason@ == "defect in magi-core, run aborted: "@
            + observation@ + "; "@ + hypothesis@ + " (agent "@ + agent_display(agent) + ", model "@
            + model + ")"@,
        ModelOutcome::MageLocal { detail, kind } => d matches SeatDisposition::Rotate {
            condemn,
            kind: k,
            detail: t,
        } && condemn == Condemnation::MageLocal && k == kind && t@ == detail@,
        ModelOutcome::OversizedResponse { limit } => d matches SeatDisposition::Rotate {
            condemn,
            kind,
            detail,
        } && condemn == Condemnation::MageLocal && kind == RotationKind::OversizedResponse
            && detail@ == "response body exceeded "@ + dec_text(limit as nat) + " bytes"@,
        ModelOutcome::ExternalFailure { detail, kind } => d matches SeatDisposition::Rotate {
            condemn,
            kind: k,
            detail: t,
        } && condemn == Condemnation::MageLocal && k == RotationKind::ExternalFailure && t@
            == "external ("@ + external_kind_debug(kind) + "): "@ + detail@,
        ModelOutcome::Schema(t) => d matches SeatDisposition::Rotate {
            condemn,
            kind,
            detail,
        } && condemn == Condemnation::MageLocal && kind == RotationKind::Schema && detail@ == t@,
        ModelOutcome::Transport { detail, connection, kind } => d matches SeatDisposition::Rotate {
            condemn,
            kind: k,
            detail: t,
        } && condemn == (Condemnation::RunWide { connection }) && k == kind && t@ == detail@,
    }
}

/// What the rotating seat does with an outcome: a verdict commits; an
/// unexpected failure is surfaced without rotating; a defect of this crate
/// aborts the run without rotating; a transport failure condemns the lineage
/// run-wide; every other failure condemns it for this seat alone, and the
/// seat then tries to rotate.
pub fn seat_disposition(outcome: ModelOutcome, agent: AgentName, model: &str) -> (d:
    SeatDisposition)
    ensures
        disposition_spec(outcome, agent, model@, d),
{
    match outcome {
        ModelOutcome::Success(out) => SeatDisposition::Commit(out),
        ModelOutcome::Unexpected(t) => SeatDisposition::Surface(t),
        ModelOutcome::CrateDefect { observation, hypothesis } => {
            let mut out: Vec<char> = Vec::new();
            push_str(&mut out, "defect in magi-core, run aborted: ");
            push_str(&mut out, observation.as_str());
            push_str(&mut out, "; ");
            push_str(&mut out, hypothesis);
            push_str(&mut out, " (agent ");
            push_str(&mut out, agent.display_name());
            push_str(&mut out, ", model ");
            push_str(&mut out, model);
            push_str(&mut out, ")");
            let reason = string_of(&out);
            let defect = CrateDefectRecord {
                observation,
                hypothesis,
                agent,
                model: string_of(&chars_of(model)),
            };
            SeatDisposition::AbortRun { defect, reason }
        },
        ModelOutcome::MageLocal { detail, kind } => SeatDisposition::Rotate {
            condemn: Condemnation::MageLocal,
            kind,
            detail,
        },
        ModelOutcome::OversizedResponse { limit } => SeatDisposition::Rotate {
            condemn: Condemnation::MageLocal,
            kind: RotationKind::OversizedResponse,
            detail: oversized_detail(limit),
        },
        ModelOutcome::ExternalFailure { detail, kind } => SeatDisposition::Rotate {
            condemn: Condemnation::MageLocal,
            kind: RotationKind::ExternalFailure,
            detail: external_failure_detail(kind, detail.as_str()),
        },
        ModelOutcome::Schema(t) => SeatDisposition::Rotate {
            condemn: Condemnation::MageLocal,
            kind: RotationKind::Schema,
            detail: t,
        },
        ModelOutcome::Transport { detail, connection, kind } => SeatDisposition::Rotate {
            condemn: Condemnation::RunWide { connection },
            kind,
            detail,
        },
    }
}

/// A provider failure that the endpoint answered never condemns a lineage
/// run-wide through the seat; only transport failures do, and only a
/// network failure feeds the endpoint-down latch.
pub proof fn law_only_transport_condemns_run_wide(
    err: ProviderError,
    o: ModelOutcome,
    agent: AgentName,
    model: Seq<char>,
    d: SeatDisposition,
)
    requires
        outcome_spec(err, o),
        disposition_spec(o, agent, model, d),
    ensures
        (d matches SeatDisposition::Rotate { condemn, .. } && condemn is RunWide) <==> (
        err is Http || err is Network || err is Auth || err is Process || err is RetryAbandoned
            || err is NestedSession || err is Timeout),
        (d matches SeatDisposition::Rotate { condemn, .. } && condemn == (Condemnation::RunWide {
            connection: true,
        })) <==> is_connection_spec(err),
        d is AbortRun <==> err is NoGeneration,
{
}

/// The reason a seat reports when it needed to rotate and no eligible
/// candidate was left.
pub fn no_candidate_reason(detail: &str) -> (r: String)
    ensures
        r@ == "no_fitting_candidate: "@ + detail@,
{
    let mut out: Vec<char> = Vec::new();
    push_str(&mut out, "no_fitting_candidate: ");
    push_str(&mut out, detail);
    string_of(&out)
}

// ---------------------------------------------------------------------------
// The rotation chain
// ---------------------------------------------------------------------------

/// One hop of a seat's rotation: from which lineage to which, onto which
/// model, and why.
pub struct RotationEvent {
    pub from: Lineage,
    pub to: Lineage,
    pub model: String,
    pub kind: RotationKind,
    pub detail: String,
}

impl View for RotationEvent {
    type V = (Seq<char>, Seq<char>, Seq<char>, RotationKind, Seq<char>);

    open spec fn view(&self) -> (Seq<char>, Seq<char>, Seq<char>, RotationKind, Seq<char>) {
        (self.from.name@, self.to.name@, self.model@, self.kind, self.detail@)
    }
}

/// What a seat's model rotation came to: the model it was configured with,
/// the model that produced its answer, the hops taken on the way, and whether
/// it ran without a measured context window.
pub struct AgentRotation {
    pub model_configured: String,
    pub model_used: String,
    pub chain: Vec<RotationEvent>,
    pub ran_unmeasured: bool,
}

/// What the seat does after a failure that calls for rotation.
#[derive(Debug)]
pub enum RotationStep {
    /// A new lineage was taken: run the seat's model again on it.
    Continue,
    /// No rotation is left: release the seat and report this reason.
    GiveUp(String),
}

/// A rotating seat's rotation so far: the model it was configured with, the
/// model and lineage it is on now, the hops taken, and the most hops the
/// pool allows.
pub struct SeatRotation {
    model_configured: String,
    model_used: String,
    lineage: Lineage,
    chain: Vec<RotationEvent>,
    max_rotations: usize,
}

impl SeatRotation {
    pub closed spec fn configured(&self) -> Seq<char> {
        self.model_configured@
    }

    pub closed spec fn used(&self) -> Seq<char> {
        self.model_used@
    }

    /// The lineage the seat is on now.
    pub closed spec fn current_lineage(&self) -> Seq<char> {
        self.lineage.name@
    }

    /// The hops taken, in order.
    pub closed spec fn hops(&self) -> Seq<(Seq<char>, Seq<char>, Seq<char>, RotationKind, Seq<char>)> {
        self.chain@.map_values(|e: RotationEvent| e@)
    }

    pub closed spec fn bound(&self) -> usize {
        self.max_rotations
    }

    /// Every state the seat's rotation passes through: no more hops than the
    /// pool allows.
    pub open spec fn wf(&self) -> bool {
        self.hops().len() <= self.bound()
    }

    /// A seat on its primary `model` and `lineage`, not yet rotated, allowed
    /// at most `max_rotations` hops.
    pub fn new(model: String, lineage: Lineage, max_rotations: usize) -> (r: Self)
        ensures
            r.wf(),
            r.configured() == model@,
            r.used() == model@,
            r.current_lineage() == lineage.name@,
            r.hops().len() == 0,
            r.bound() == max_rotations,
    {
        let used = model.clone();
        let r = SeatRotation {
            model_configured: model,
            model_used: used,
            lineage,
            chain: Vec::new(),
            max_rotations,
        };
        assert(r.hops() =~= Seq::empty());
        r
    }

    /// How many hops the seat has taken.
    pub fn rotations_done(&self) -> (n: usize)
        ensures
            n == self.hops().len(),
    {
        self.chain.len()
    }

    /// After a failure of kind `kind` with `detail` that calls for rotation,
    /// and the candidate lineage and model the registry offered (`None`: no
    /// eligible one): with a candidate and a hop left, the seat records the
    /// hop from its current lineage and moves onto the candidate; otherwise it
    /// stays as it is and gives up with `no_fitting_candidate: <detail>`.
    pub fn after_failure(
        &mut self,
        kind: RotationKind,
        detail: String,
        offered: Option<(Lineage, String)>,
    ) -> (s: RotationStep)
        requires
            old(self).wf(),
        ensures
            final(self).wf(),
            final(self).configured() == old(self).configured(),
            final(self).bound() == old(self).bound(),
            match offered {
                Some(c) => if old(self).hops().len() < old(self).bound() {
                    &&& s is Continue
                    &&& final(self).hops() == old(self).hops().push(
                        (old(self).current_lineage(), c.0.name@, c.1@, kind, detail@),
                    )
                    &&& final(self).used() == c.1@
                    &&& final(self).current_lineage() == c.0.name@
                } else {
                    &&& s matches RotationStep::GiveUp(r) && r@ == "no_fitting_candidate: "@ + detail@
                    &&& final(self).hops() == old(self).hops()
                    &&& final(self).used() == old(self).used()
                    &&& final(self).current_lineage() == old(self).current_lineage()
                },
                None => {
                    &&& s matches RotationStep::GiveUp(r) && r@ == "no_fitting_candidate: "@ + detail@
                    &&& final(self).hops() == old(self).hops()
                    &&& final(self).used() == old(self).used()
                    &&& final(self).current_lineage() == old(self).current_lineage()
                },
            },
    {
        match offered {
            Some((to, model)) => {
                if self.chain.len() < self.max_rotations {
                    let ghost before = self.chain@;
                    let mut from = Lineage { name: to.name.clone() };
                    std::mem::swap(&mut from, &mut self.lineage);
                    let used = model.clone();
                    self.chain.push(RotationEvent { from, to, model, kind, detail });
                    self.model_used = used;
                    assert(self.chain@.map_values(|e: RotationEvent| e@) =~= before.map_values(
                        |e: RotationEvent| e@,
                    ).push(self.chain@.last()@));
                    RotationStep::Continue
                } else {
                    RotationStep::GiveUp(no_candidate_reason(detail.as_str()))
                }
            },
            None => RotationStep::GiveUp(no_candidate_reason(detail.as_str())),
        }
    }

    /// The seat's rotation telemetry once it is done; `ran_unmeasured` says
    /// whether the model it ended on ran without a measured context window.
    pub fn finish(self, ran_unmeasured: bool) -> (r: AgentRotation)
        ensures
            r.model_configured@ == self.configured(),
            r.model_used@ == self.used(),
            r.chain@.map_values(|e: RotationEvent| e@) == self.hops(),
            r.ran_unmeasured == ran_unmeasured,
    {
        AgentRotation {
            model_configured: self.model_configured,
            model_used: self.model_used,
            chain: self.chain,
            ran_unmeasured,
        }
    }
}

/// A seat never takes more hops than the pool allows: every state a
/// rotation passes through, from `new` and through each `after_failure`,
/// holds at most `max_rotations` hops.
pub proof fn law_rotations_stay_within_the_bound(r: SeatRotation)
    requires
        r.wf(),
    ensures
        r.hops().len() <= r.bound(),
{
}

// ---------------------------------------------------------------------------
// Completion records
// ---------------------------------------------------------------------------

/// What a completed call returned, for the completion record.
#[derive(Debug)]
pub enum CallResult {
    /// The provider answered with a completion carrying this telemetry.
    Completed(CompletionTelemetry),
    /// The provider surfaced a failure.
    Failed(ProviderError),
    /// The timeout cut the call.
    TimedOut,
}

/// The record a call on `model` with budget `cap` leaves, if any: a
/// completion and an empty completion are recorded from their telemetry
/// alike; a generation that never happened leaves none (the run aborts and
/// its report will not exist); every other failure and a timeout leave one
/// with nothing measured.
pub open spec fn call_record(model: Seq<char>, cap: u32, call: CallResult) -> Option<
    (Seq<char>, u32, Option<FinishReason>, Option<u32>),
> {
    match call {
        CallResult::Completed(t) => Some((model, cap, t.finish, t.prompt_tokens)),
        CallResult::Failed(e) => match e {
            ProviderError::NoGeneration { .. } => None,
            ProviderError::EmptyCompletion { telemetry, .. } => Some(
                (model, cap, telemetry.finish, telemetry.prompt_tokens),
            ),
            _ => Some((model, cap, None, None)),
        },
        CallResult::TimedOut => Some((model, cap, None, None)),
    }
}

/// Completion records as plain values.
pub open spec fn records_view(r: Seq<CompletionRecord>) -> Seq<
    (Seq<char>, u32, Option<FinishReason>, Option<u32>),
> {
    r.map_values(|x: CompletionRecord| x@)
}

/// The records after a call that left `rec`: earlier records stay, in order.
pub open spec fn after_call(
    records: Seq<(Seq<char>, u32, Option<FinishReason>, Option<u32>)>,
    rec: Option<(Seq<char>, u32, Option<FinishReason>, Option<u32>)>,
) -> Seq<(Seq<char>, u32, Option<FinishReason>, Option<u32>)> {
    match rec {
        Some(x) => records.push(x),
        None => records,
    }
}

/// Records one call on `model` with budget `cap`: appends the record it
/// leaves (see `call_record`) and keeps every earlier one.
pub fn record_attempt(records: &mut Vec<CompletionRecord>, model: &str, cap: u32, call: &CallResult)
    ensures
        records_view(final(records)@) == after_call(
            records_view(old(records)@),
            call_record(model@, cap, *call),
        ),
{
    let ghost before = records@;
    let owned = string_of(&chars_of(model));
    match call {
        CallResult::Completed(t) => records.push(CompletionRecord::from_telemetry(owned, cap, t)),
        CallResult::Failed(ProviderError::NoGeneration { .. }) => {},
        CallResult::Failed(ProviderError::EmptyCompletion { telemetry, .. }) => records.push(
            CompletionRecord::from_telemetry(owned, cap, telemetry),
        ),
        CallResult::Failed(_) => records.push(CompletionRecord::new(owned, cap)),
        CallResult::TimedOut => records.push(CompletionRecord::new(owned, cap)),
    }
    assert(records_view(records@) =~= after_call(records_view(before), call_record(model@, cap, *call)));
}

// ---------------------------------------------------------------------------
// The attempt state of one seat
// ---------------------------------------------------------------------------

/// What one call on a model came to, as the dispatch loop observed it,
/// together with what the loop's parser made of an answer.
#[derive(Debug)]
pub enum CallEvent {
    /// The configured timeout cut the call.
    TimedOut,
    /// The provider surfaced a failure.
    ProviderFailed(ProviderError),
    /// The provider answered; `verdict` is the parsed and validated output,
    /// or why it was rejected.
    Answered { telemetry: CompletionTelemetry, verdict: Result<AgentOutput, ParseFailure> },
}

/// The call as the completion record sees it.
pub open spec fn call_result_of(c: CallEvent) -> CallResult {
    match c {
        CallEvent::TimedOut => CallResult::TimedOut,
        CallEvent::ProviderFailed(e) => CallResult::Failed(e),
        CallEvent::Answered { telemetry, .. } => CallResult::Completed(telemetry),
    }
}

/// The call as the seat's decision sees it.
pub open spec fn attempt_event_of(c: CallEvent) -> AttemptEvent {
    match c {
        CallEvent::TimedOut => AttemptEvent::TimedOut,
        CallEvent::ProviderFailed(e) => AttemptEvent::ProviderFailed(e),
        CallEvent::Answered { verdict, .. } => match verdict {
            Ok(o) => AttemptEvent::Accepted(o),
            Err(f) => AttemptEvent::Rejected(f),
        },
    }
}

/// The failures after a call that left `f`: earlier failures stay, in order.
pub open spec fn after_failure_record(failures: Seq<ExtractionFailure>, f: Option<ExtractionFailure>) -> Seq<
    ExtractionFailure,
> {
    match f {
        Some(x) => failures.push(x),
        None => failures,
    }
}

fn duplicate_failure(f: &ExtractionFailure) -> (r: ExtractionFailure)
    ensures
        r == *f,
{
    ExtractionFailure { model: f.model.clone(), attempt: f.attempt, cause: f.cause }
}

/// A seat's attempt so far: the model it runs on and the output budget it
/// gives it, which of the model's (at most two) calls comes next, whether the
/// seat's corrective retry has fired, and the failures and completion records
/// it has accumulated, across models, in attempt order.
pub struct SeatAttempt {
    pub model: String,
    pub cap: u32,
    pub phase: AttemptPhase,
    pub retried: bool,
    pub failures: Vec<ExtractionFailure>,
    pub records: Vec<CompletionRecord>,
}

impl SeatAttempt {
    /// A seat about to make its first call on `model` with budget `cap`.
    pub fn new(model: String, cap: u32) -> (a: Self)
        ensures
            a.model@ == model@,
            a.cap == cap,
            a.phase == AttemptPhase::First,
            !a.retried,
            a.failures@.len() == 0,
            a.records@.len() == 0,
    {
        SeatAttempt {
            model,
            cap,
            phase: AttemptPhase::First,
            retried: false,
            failures: Vec::new(),
            records: Vec::new(),
        }
    }

    /// The seat moves onto another model after a rotation: the call count
    /// restarts, and what it accumulated stays.
    pub fn switch_model(&mut self, model: String)
        ensures
            final(self).model@ == model@,
            final(self).cap == old(self).cap,
            final(self).phase == AttemptPhase::First,
            final(self).retried == old(self).retried,
            final(self).failures@ == old(self).failures@,
            final(self).records@ == old(self).records@,
    {
        self.model = model;
        self.phase = AttemptPhase::First;
    }

    /// Records one call (see `record_attempt`) and hands the decision back:
    /// a call leaves exactly the record `call_record` names, with the seat's
    /// model and budget.
    fn observe(&mut self, call: CallEvent) -> (e: AttemptEvent)
        ensures
            e == attempt_event_of(call),
            records_view(final(self).records@) == after_call(
                records_view(old(self).records@),
                call_record(old(self).model@, old(self).cap, call_result_of(call)),
            ),
            final(self).model == old(self).model,
            final(self).cap == old(self).cap,
            final(self).phase == old(self).phase,
            final(self).retried == old(self).retried,
            final(self).failures == old(self).failures,
    {
        let (result, verdict) = match call {
            CallEvent::TimedOut => (CallResult::TimedOut, None),
            CallEvent::ProviderFailed(e) => (CallResult::Failed(e), None),
            CallEvent::Answered { telemetry, verdict } => (CallResult::Completed(telemetry), Some(verdict)),
        };
        record_attempt(&mut self.records, self.model.as_str(), self.cap, &result);
        match verdict {
            Some(Ok(o)) => AttemptEvent::Accepted(o),
            Some(Err(f)) => AttemptEvent::Rejected(f),
            None => match result {
                CallResult::Failed(e) => AttemptEvent::ProviderFailed(e),
                _ => AttemptEvent::TimedOut,
            },
        }
    }

    fn keep_failure(&mut self, f: &Option<ExtractionFailure>)
        ensures
            final(self).failures@ == after_failure_record(old(self).failures@, *f),
            final(self).model == old(self).model,
            final(self).cap == old(self).cap,
            final(self).phase == old(self).phase,
            final(self).retried == old(self).retried,
            final(self).records == old(self).records,
    {
        match f {
            Some(x) => self.failures.push(duplicate_failure(x)),
            None => {},
        }
    }

    /// One call on the rotating path: records it, decides by `model_step`,
    /// keeps the failure it leaves, and, when the decision is the corrective
    /// retry, sets the seat's retried flag (never reset) and moves to the
    /// model's second call. After the second call the model attempt is always
    /// over.
    pub fn step_rotating(&mut self, call: CallEvent, retry_enabled: bool, timeout: Duration) -> (d:
        ModelDecision)
        ensures
            model_step_spec(old(self).phase, retry_enabled, timeout, old(self).model@, attempt_event_of(call), d),
            records_view(final(self).records@) == after_call(
                records_view(old(self).records@),
                call_record(old(self).model@, old(self).cap, call_result_of(call)),
            ),
            final(self).failures@ == after_failure_record(old(self).failures@, d.failure),
            final(self).retried == (old(self).retried || d.step is RetryWithFeedback),
            final(self).phase == (if d.step is RetryWithFeedback {
                AttemptPhase::CorrectiveRetry
            } else {
                old(self).phase
            }),
            old(self).phase == AttemptPhase::CorrectiveRetry ==> d.step is Finished,
            final(self).model == old(self).model,
            final(self).cap == old(self).cap,
    {
        let event = self.observe(call);
        let d = model_step(self.phase, retry_enabled, timeout, self.model.as_str(), event);
        self.keep_failure(&d.failure);
        match &d.step {
            ModelStep::RetryWithFeedback { .. } => {
                self.retried = true;
                self.phase = AttemptPhase::CorrectiveRetry;
            },
            ModelStep::Finished(_) => {},
        }
        d
    }

    /// One call on the path without rotation: records it, decides by
    /// `seat_step` for `agent`, keeps the failure it leaves, and, when the
    /// decision is the corrective retry, sets the retried flag and moves to
    /// the second call. After the second call the seat is always done.
    pub fn step_fixed(
        &mut self,
        call: CallEvent,
        retry_enabled: bool,
        timeout: Duration,
        agent: AgentName,
    ) -> (d: SeatDecision)
        ensures
            seat_step_spec(
                old(self).phase,
                retry_enabled,
                timeout,
                agent,
                old(self).model@,
                attempt_event_of(call),
                d,
            ),
            records_view(final(self).records@) == after_call(
                records_view(old(self).records@),
                call_record(old(self).model@, old(self).cap, call_result_of(call)),
            ),
            final(self).failures@ == after_failure_record(old(self).failures@, d.failure),
            final(self).retried == (old(self).retried || d.step is RetryWithFeedback),
            final(self).phase == (if d.step is RetryWithFeedback {
                AttemptPhase::CorrectiveRetry
            } else {
                old(self).phase
            }),
            old(self).phase == AttemptPhase::CorrectiveRetry ==> !(d.step is RetryWithFeedback),
            final(self).model == old(self).model,
            final(self).cap == old(self).cap,
    {
        let event = self.observe(call);
        let d = seat_step(self.phase, retry_enabled, timeout, agent, self.model.as_str(), event);
        self.keep_failure(&d.failure);
        match &d.step {
            SeatStep::RetryWithFeedback { .. } => {
                self.retried = true;
                self.phase = AttemptPhase::CorrectiveRetry;
            },
            _ => {},
        }
        d
    }
}

} // verus!

use std::time::Duration;

use magi_core::error::{ExternalErrorKind, Lineage, MagiError, ProviderError};
use magi_core::orchestrator::{
    agent_timeout_message, ExtractionFailureCause, ModelOutcome, ParseFailure, RotationKind,
    CRATE_DEFECT_HYPOTHESIS,
};
use magi_core::schema::{AgentName, AgentOutput, Verdict};
use magi_core::seat::{
    model_step, no_candidate_reason, record_attempt, seat_disposition, seat_step, AttemptEvent,
    AttemptPhase, CallEvent, CallResult, Condemnation, ModelStep, RotationStep, SeatAttempt,
    SeatDisposition, SeatRotation, SeatStep,
};
use magi_core::telemetry::{CompletionRecord, CompletionTelemetry, FinishReason};

const T: Duration = Duration::from_secs(30);

fn output(agent: AgentName) -> AgentOutput {
    AgentOutput {
        agent,
        verdict: Verdict::Approve,
        summary: "s".to_string(),
        reasoning: "r".to_string(),
        findings: vec![],
        recommendation: "rec".to_string(),
    }
}

fn rejected(cause: ExtractionFailureCause) -> AttemptEvent {
    AttemptEvent::Rejected(ParseFailure::new(cause, "bad"))
}

// ---------------------------------------------------------------------------
// A seat without rotation
// ---------------------------------------------------------------------------

#[test]
fn an_accepted_first_response_succeeds_without_a_record() {
    let d = seat_step(
        AttemptPhase::First,
        true,
        T,
        AgentName::Melchior,
        "m",
        AttemptEvent::Accepted(output(AgentName::Melchior)),
    );
    assert!(matches!(d.step, SeatStep::Succeeded(o) if o.agent == AgentName::Melchior));
    assert!(d.failure.is_none());
}

#[test]
fn a_rejected_first_response_retries_with_its_cause_and_text() {
    let d = seat_step(
        AttemptPhase::First,
        true,
        T,
        AgentName::Caspar,
        "glm",
        rejected(ExtractionFailureCause::InvalidJson),
    );
    match d.step {
        SeatStep::RetryWithFeedback { cause, feedback } => {
            assert_eq!(cause, ExtractionFailureCause::InvalidJson);
            assert_eq!(feedback, "deserialization error: bad");
        }
        other => panic!("expected a retry, got {other:?}"),
    }
    let f = d.failure.expect("a rejection leaves a record");
    assert_eq!((f.model.as_str(), f.attempt, f.cause), ("glm", 1, ExtractionFailureCause::InvalidJson));
}

#[test]
fn with_retry_disabled_the_first_rejection_is_the_reason_unprefixed() {
    let d = seat_step(
        AttemptPhase::First,
        false,
        T,
        AgentName::Caspar,
        "glm",
        rejected(ExtractionFailureCause::Schema),
    );
    match d.step {
        SeatStep::Failed { reason, defect } => {
            assert_eq!(reason, "validation error: bad");
            assert!(defect.is_none());
        }
        other => panic!("expected a failure, got {other:?}"),
    }
}

#[test]
fn a_rejected_retry_fails_with_the_retry_prefix_and_attempt_two() {
    let d = seat_step(
        AttemptPhase::CorrectiveRetry,
        true,
        T,
        AgentName::Caspar,
        "glm",
        rejected(ExtractionFailureCause::EchoedExample),
    );
    match d.step {
        SeatStep::Failed { reason, .. } => assert_eq!(reason, "retry-failed: validation error: bad"),
        other => panic!("expected a failure, got {other:?}"),
    }
    assert_eq!(d.failure.expect("recorded").attempt, 2);
}

#[test]
fn a_provider_failure_never_retries_and_names_a_defect_only_for_no_generation() {
    let net = ProviderError::Network { message: "refused".to_string() };
    let text = net.message();
    let d = seat_step(AttemptPhase::First, true, T, AgentName::Melchior, "m", AttemptEvent::ProviderFailed(net));
    match d.step {
        SeatStep::Failed { reason, defect } => {
            assert_eq!(reason, text);
            assert!(defect.is_none());
        }
        other => panic!("expected a failure, got {other:?}"),
    }
    let d = seat_step(
        AttemptPhase::CorrectiveRetry,
        true,
        T,
        AgentName::Melchior,
        "m",
        AttemptEvent::ProviderFailed(ProviderError::NoGeneration { done_reason: None }),
    );
    match d.step {
        SeatStep::Failed { reason, defect } => {
            assert!(reason.starts_with("retry-failed: "), "{reason}");
            let d = defect.expect("a generation that never happened is ours");
            assert_eq!(d.agent, AgentName::Melchior);
            assert_eq!(d.model, "m");
            assert_eq!(d.hypothesis, CRATE_DEFECT_HYPOTHESIS);
        }
        other => panic!("expected a failure, got {other:?}"),
    }
}

#[test]
fn a_timeout_reports_the_phase_and_the_ceiling() {
    let d = seat_step(AttemptPhase::First, true, T, AgentName::Caspar, "m", AttemptEvent::TimedOut);
    match d.step {
        SeatStep::Failed { reason, .. } => assert_eq!(reason, agent_timeout_message(false, T)),
        other => panic!("expected a failure, got {other:?}"),
    }
}

// ---------------------------------------------------------------------------
// One model attempt on the rotating path
// ---------------------------------------------------------------------------

#[test]
fn the_rotating_path_routes_provider_failures_through_the_classifier() {
    let d = model_step(
        AttemptPhase::First,
        true,
        T,
        "m",
        AttemptEvent::ProviderFailed(ProviderError::ResponseTooLarge { limit: 9 }),
    );
    assert!(matches!(
        d.step,
        ModelStep::Finished(ModelOutcome::OversizedResponse { limit: 9 })
    ));
}

#[test]
fn the_rotating_path_rotates_a_schema_failure_at_once_when_retry_is_off() {
    let d = model_step(AttemptPhase::First, false, T, "m", rejected(ExtractionFailureCause::MissingMarkers));
    match d.step {
        ModelStep::Finished(ModelOutcome::Schema(t)) => assert_eq!(t, "deserialization error: bad"),
        other => panic!("expected a schema outcome, got {other:?}"),
    }
    assert_eq!(d.failure.expect("recorded").attempt, 1);
}

#[test]
fn the_rotating_path_surfaces_an_error_that_is_not_retried_kind() {
    let f = ParseFailure { cause: ExtractionFailureCause::Schema, error: MagiError::InvalidInput { reason: "x".to_string() } };
    let d = model_step(AttemptPhase::First, true, T, "m", AttemptEvent::Rejected(f));
    match d.step {
        ModelStep::Finished(ModelOutcome::Unexpected(t)) => assert_eq!(t, "invalid input: x"),
        other => panic!("expected an unexpected outcome, got {other:?}"),
    }
}

#[test]
fn the_rotating_path_retries_then_reports_a_retry_failure_as_schema() {
    let first = model_step(AttemptPhase::First, true, T, "m", rejected(ExtractionFailureCause::AgentIdentity));
    assert!(matches!(first.step, ModelStep::RetryWithFeedback { cause: ExtractionFailureCause::AgentIdentity, .. }));
    let second = model_step(AttemptPhase::CorrectiveRetry, true, T, "m", rejected(ExtractionFailureCause::AgentIdentity));
    match second.step {
        ModelStep::Finished(ModelOutcome::Schema(t)) => {
            assert_eq!(t, "retry-failed: validation error: bad")
        }
        other => panic!("expected a schema outcome, got {other:?}"),
    }
    assert_eq!(second.failure.expect("recorded").attempt, 2);
}

// ---------------------------------------------------------------------------
// What an outcome does to the seat
// ---------------------------------------------------------------------------

#[test]
fn each_outcome_takes_its_disposition() {
    match seat_disposition(
        ModelOutcome::Transport { detail: "d".to_string(), connection: true, kind: RotationKind::Transport },
        AgentName::Caspar,
        "m",
    ) {
        SeatDisposition::Rotate { condemn, kind, detail } => {
            assert_eq!(condemn, Condemnation::RunWide { connection: true });
            assert_eq!(kind, RotationKind::Transport);
            assert_eq!(detail, "d");
        }
        other => panic!("{other:?}"),
    }
    match seat_disposition(ModelOutcome::OversizedResponse { limit: 5 }, AgentName::Caspar, "m") {
        SeatDisposition::Rotate { condemn, kind, detail } => {
            assert_eq!(condemn, Condemnation::MageLocal);
            assert_eq!(kind, RotationKind::OversizedResponse);
            assert_eq!(detail, "response body exceeded 5 bytes");
        }
        other => panic!("{other:?}"),
    }
    match seat_disposition(
        ModelOutcome::ExternalFailure { detail: "boom".to_string(), kind: ExternalErrorKind::Auth },
        AgentName::Caspar,
        "m",
    ) {
        SeatDisposition::Rotate { condemn, kind, detail } => {
            assert_eq!(condemn, Condemnation::MageLocal);
            assert_eq!(kind, RotationKind::ExternalFailure);
            assert_eq!(detail, "external (Auth): boom");
        }
        other => panic!("{other:?}"),
    }
    assert!(matches!(
        seat_disposition(ModelOutcome::Unexpected("u".to_string()), AgentName::Caspar, "m"),
        SeatDisposition::Surface(r) if r == "u"
    ));
}

#[test]
fn a_crate_defect_aborts_the_run_and_names_the_seat() {
    match seat_disposition(
        ModelOutcome::CrateDefect { observation: "obs".to_string(), hypothesis: CRATE_DEFECT_HYPOTHESIS },
        AgentName::Balthasar,
        "glm",
    ) {
        SeatDisposition::AbortRun { defect, reason } => {
            assert_eq!(defect.agent, AgentName::Balthasar);
            assert_eq!(defect.model, "glm");
            let expected = MagiError::CrateDefect {
                observation: "obs".to_string(),
                hypothesis: CRATE_DEFECT_HYPOTHESIS,
                agent: AgentName::Balthasar,
                model: "glm".to_string(),
                joined_before_abort: Vec::new(),
            };
            assert_eq!(reason, expected.message());
        }
        other => panic!("{other:?}"),
    }
}

#[test]
fn no_fitting_candidate_names_the_last_failure() {
    assert_eq!(no_candidate_reason("timeout"), "no_fitting_candidate: timeout");
}

// ---------------------------------------------------------------------------
// Completion records
// ---------------------------------------------------------------------------

#[test]
fn a_crate_defect_records_nothing_because_its_report_will_not_exist() {
    let mut records = Vec::new();
    record_attempt(
        &mut records,
        "m",
        4096,
        &CallResult::Failed(ProviderError::NoGeneration { done_reason: Some(FinishReason::Load) }),
    );
    assert!(records.is_empty());
}

#[test]
fn a_timed_out_attempt_is_recorded_with_nothing_measured() {
    let mut records = Vec::new();
    record_attempt(&mut records, "slow-model", 16_384, &CallResult::TimedOut);
    assert_eq!(records.len(), 1);
    assert_eq!(records[0].model, "slow-model");
    assert_eq!(records[0].cap, 16_384);
    assert_eq!(records[0].finish, None);
    assert_eq!(records[0].prompt_tokens, None);
    record_attempt(
        &mut records,
        "other",
        8,
        &CallResult::Failed(ProviderError::Auth { message: "a".to_string() }),
    );
    assert_eq!(records.len(), 2);
    assert_eq!(records[0].model, "slow-model");
    assert_eq!(records[1], CompletionRecord::new("other".to_string(), 8));
}

#[test]
fn an_empty_completion_is_recorded_like_a_successful_one() {
    let t = CompletionTelemetry::unmeasured().with_finish(FinishReason::Length).with_prompt_tokens(7);
    let mut records = Vec::new();
    record_attempt(
        &mut records,
        "cut-model",
        4096,
        &CallResult::Failed(ProviderError::EmptyCompletion { telemetry: t.clone(), cap: 10 }),
    );
    record_attempt(&mut records, "cut-model", 4096, &CallResult::Completed(t.clone()));
    assert_eq!(records.len(), 2);
    assert_eq!(records[0], records[1]);
    assert_eq!(records[0].finish, Some(FinishReason::Length));
    assert_eq!(records[0].prompt_tokens, Some(7));
    assert_eq!(records[0].cap, 4096);
}

#[test]
fn the_schema_retry_leaves_two_entries_with_the_same_model() {
    let mut a = SeatAttempt::new("glm".to_string(), 2048);
    let answered = |verdict| CallEvent::Answered { telemetry: CompletionTelemetry::unmeasured(), verdict };
    let d = a.step_rotating(
        answered(Err(ParseFailure::new(ExtractionFailureCause::InvalidJson, "bad"))),
        true,
        T,
    );
    assert!(matches!(d.step, ModelStep::RetryWithFeedback { .. }));
    assert!(a.retried);
    assert_eq!(a.phase, AttemptPhase::CorrectiveRetry);
    let d = a.step_rotating(answered(Ok(output(AgentName::Caspar))), true, T);
    assert!(matches!(d.step, ModelStep::Finished(ModelOutcome::Success(_))));
    assert_eq!(a.records.len(), 2);
    assert!(a.records.iter().all(|r| r.model == "glm" && r.cap == 2048));
    assert_eq!(a.failures.len(), 1);
    assert_eq!(a.failures[0].model, "glm");
    assert_eq!(a.failures[0].attempt, 1);
    assert!(a.retried);
}

#[test]
fn a_seat_that_never_retries_keeps_its_flag_clear_and_records_each_call() {
    let mut a = SeatAttempt::new("m1".to_string(), 100);
    let d = a.step_fixed(CallEvent::TimedOut, true, T, AgentName::Melchior);
    assert!(matches!(d.step, SeatStep::Failed { .. }));
    assert!(!a.retried);
    assert_eq!(a.records.len(), 1);
    let mut b = SeatAttempt::new("m2".to_string(), 100);
    let d = b.step_fixed(
        CallEvent::ProviderFailed(ProviderError::NoGeneration { done_reason: None }),
        true,
        T,
        AgentName::Balthasar,
    );
    assert!(matches!(d.step, SeatStep::Failed { defect: Some(_), .. }));
    assert!(b.records.is_empty());
    b.switch_model("m3".to_string());
    assert_eq!(b.phase, AttemptPhase::First);
    let d = b.step_fixed(
        CallEvent::Answered {
            telemetry: CompletionTelemetry::unmeasured(),
            verdict: Err(ParseFailure::new(ExtractionFailureCause::InvalidJson, "bad")),
        },
        false,
        T,
        AgentName::Balthasar,
    );
    assert!(matches!(d.step, SeatStep::Failed { .. }));
    assert!(!b.retried);
    assert_eq!(b.failures.len(), 1);
    assert_eq!(b.failures[0].model, "m3");
    assert_eq!(b.records[0].model, "m3");
}

// ---------------------------------------------------------------------------
// Rotation chain
// ---------------------------------------------------------------------------

#[test]
fn a_rotation_records_the_hop_and_moves_the_seat_onto_the_candidate() {
    let mut r = SeatRotation::new("m0".to_string(), Lineage::new("lin-a"), 2);
    let s = r.after_failure(
        RotationKind::Schema,
        "bad json".to_string(),
        Some((Lineage::new("lin-b"), "m1".to_string())),
    );
    assert!(matches!(s, RotationStep::Continue));
    assert_eq!(r.rotations_done(), 1);
    let t = r.finish(true);
    assert_eq!(t.model_configured, "m0");
    assert_eq!(t.model_used, "m1");
    assert!(t.ran_unmeasured);
    assert_eq!(t.chain.len(), 1);
    assert_eq!(t.chain[0].from.as_str(), "lin-a");
    assert_eq!(t.chain[0].to.as_str(), "lin-b");
    assert_eq!(t.chain[0].model, "m1");
    assert_eq!(t.chain[0].kind, RotationKind::Schema);
    assert_eq!(t.chain[0].detail, "bad json");
}

#[test]
fn a_seat_never_rotates_past_the_bound_or_without_a_candidate() {
    let mut r = SeatRotation::new("m0".to_string(), Lineage::new("a"), 1);
    match r.after_failure(RotationKind::Timeout, "slow".to_string(), None) {
        RotationStep::GiveUp(reason) => assert_eq!(reason, "no_fitting_candidate: slow"),
        RotationStep::Continue => panic!("no candidate was offered"),
    }
    assert_eq!(r.rotations_done(), 0);
    let c = Some((Lineage::new("b"), "m1".to_string()));
    assert!(matches!(r.after_failure(RotationKind::Timeout, "x".to_string(), c), RotationStep::Continue));
    let c = Some((Lineage::new("c"), "m2".to_string()));
    match r.after_failure(RotationKind::Schema, "y".to_string(), c) {
        RotationStep::GiveUp(reason) => assert_eq!(reason, "no_fitting_candidate: y"),
        RotationStep::Continue => panic!("the bound was reached"),
    }
    assert_eq!(r.rotations_done(), 1);
    assert_eq!(r.finish(false).model_used, "m1");
}

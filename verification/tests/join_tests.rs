use magi_core::error::MagiError;
use magi_core::join::{DispatchOutcome, NoRotationJoin, SeatReturn};
use magi_core::orchestrator::{CrateDefectRecord, ExtractionFailureCause, CRATE_DEFECT_HYPOTHESIS};
use magi_core::schema::{AgentName, AgentOutput, Verdict};
use magi_core::seat::ExtractionFailure;
use magi_core::telemetry::CompletionRecord;

fn output(agent: AgentName) -> AgentOutput {
    AgentOutput {
        agent,
        verdict: Verdict::Approve,
        summary: "s".to_string(),
        reasoning: "r".to_string(),
        findings: vec![],
        recommendation: "rec".to_string(),
    }
}

fn trio() -> Vec<(AgentName, String)> {
    vec![
        (AgentName::Balthasar, "mb".to_string()),
        (AgentName::Caspar, "mc".to_string()),
        (AgentName::Melchior, "mm".to_string()),
    ]
}

fn finished(result: Result<AgentOutput, String>, retried: bool) -> SeatReturn {
    SeatReturn::Finished {
        result,
        retried,
        failures: vec![],
        records: vec![CompletionRecord::new("m".to_string(), 10)],
        defect: None,
    }
}

#[test]
fn the_outcome_is_keyed_by_exactly_the_dispatched_seats() {
    let mut j = NoRotationJoin::new(&trio());
    let failure = ExtractionFailure {
        model: "mc".to_string(),
        attempt: 1,
        cause: ExtractionFailureCause::InvalidJson,
    };
    assert!(j.record(AgentName::Melchior, finished(Ok(output(AgentName::Melchior)), false)).is_none());
    assert!(j
        .record(
            AgentName::Caspar,
            SeatReturn::Finished {
                result: Err("retry-failed: bad".to_string()),
                retried: true,
                failures: vec![failure.clone()],
                records: vec![],
                defect: None,
            },
        )
        .is_none());
    assert!(j.record(AgentName::Balthasar, SeatReturn::Panicked("boom".to_string())).is_none());
    let o: DispatchOutcome<u8> = match j.finish(1) {
        Ok(o) => o,
        Err(e) => panic!("quorum of one was met: {e:?}"),
    };
    assert_eq!(o.successful.len(), 1);
    assert_eq!(o.failed.len(), 2);
    assert_eq!(o.failed[1], (AgentName::Balthasar, "panic: boom".to_string()));
    assert_eq!(o.retried, vec![AgentName::Caspar]);
    let keys: Vec<AgentName> = o.extraction_failures.iter().map(|(a, _)| *a).collect();
    assert_eq!(keys, vec![AgentName::Balthasar, AgentName::Caspar, AgentName::Melchior]);
    assert!(o.extraction_failures[0].1.is_empty());
    assert_eq!(o.extraction_failures[1].1, vec![failure]);
    let pool: Vec<AgentName> = o.pool_eligibility.iter().map(|(a, _)| *a).collect();
    assert_eq!(pool, keys);
    assert!(o.pool_eligibility.iter().all(|(_, rows)| rows.is_empty()));
    let rot: Vec<(AgentName, String, String, usize)> = o
        .rotations
        .iter()
        .map(|(a, r)| (*a, r.model_configured.clone(), r.model_used.clone(), r.chain.len()))
        .collect();
    assert_eq!(rot[2], (AgentName::Melchior, "mm".to_string(), "mm".to_string(), 0));
    let completed: Vec<AgentName> = o.completions.iter().map(|(a, _)| *a).collect();
    assert_eq!(completed, vec![AgentName::Caspar, AgentName::Melchior]);
}

#[test]
fn too_few_verdicts_is_insufficient_agents() {
    let mut j = NoRotationJoin::new(&trio());
    j.record(AgentName::Melchior, finished(Ok(output(AgentName::Melchior)), false));
    j.record(AgentName::Caspar, finished(Err("x".to_string()), false));
    match j.finish::<u8>(2) {
        Err(MagiError::InsufficientAgents { succeeded, required }) => {
            assert_eq!((succeeded, required), (1, 2));
        }
        other => panic!("expected InsufficientAgents, got {:?}", other.err()),
    }
}

#[test]
fn a_seat_that_never_generated_aborts_the_run_naming_the_others() {
    let mut j = NoRotationJoin::new(&trio());
    assert!(j.record(AgentName::Balthasar, finished(Ok(output(AgentName::Balthasar)), false)).is_none());
    let defect = CrateDefectRecord {
        observation: "no generation".to_string(),
        hypothesis: CRATE_DEFECT_HYPOTHESIS,
        agent: AgentName::Caspar,
        model: "mc".to_string(),
    };
    let abort = j.record(
        AgentName::Caspar,
        SeatReturn::Finished {
            result: Err("x".to_string()),
            retried: false,
            failures: vec![],
            records: vec![],
            defect: Some(defect),
        },
    );
    match abort {
        Some(MagiError::CrateDefect { agent, model, joined_before_abort, .. }) => {
            assert_eq!(agent, AgentName::Caspar);
            assert_eq!(model, "mc");
            assert_eq!(joined_before_abort, vec![AgentName::Balthasar]);
        }
        other => panic!("expected CrateDefect, got {other:?}"),
    }
}

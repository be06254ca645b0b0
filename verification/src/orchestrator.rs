//! Orchestration decisions: input-size telemetry, the worst case a seat can
//! take, how a provider failure is routed, quorum and abort bookkeeping, and
//! how an extraction failure maps to an error.
//!
//! The dispatch loops themselves (timers, spawned tasks, provider calls) run
//! outside the library and consult these functions at each decision.

use std::time::Duration;
use vstd::prelude::*;
use vstd::string::StringSliceAdditionalSpecFns;
use crate::durations::{
    duration_debug_text, duration_from_secs, duration_nanos, duration_secs, duration_subsec_nanos,
    max_duration_nanos, push_duration_debug, saturating_mul_duration,
};
use crate::error::{
    ExternalErrorKind, Lineage, MagiError, ProviderError, external_kind_debug, provider_error_text,
};
use crate::schema::{AgentName, AgentOutput, Mode, agent_display, agent_rank, mode_display};
use crate::telemetry::{FinishReason, finish_opt_debug, push_finish_opt_debug};
use crate::seat::AgentRotation;
use crate::text::{chars_eq, chars_of, dec_text, push_decimal, push_str, string_of};

verus! {

broadcast use vstd::std_specs::vec::group_vec_axioms;

/// Default maximum accepted input size, in bytes (4 MB).
pub const DEFAULT_MAX_INPUT_LEN: usize = 4 * 1024 * 1024;

/// Default estimated-token count above which an analysis warns.
pub const DEFAULT_INPUT_WARN_TOKENS: usize = 150_000;

/// Bytes per estimated token: the estimate counts bytes and rounds down.
pub const TOKENS_PER_BYTE_DIVISOR: usize = 4;

/// Default per-call agent ceiling, in seconds: one retry chain's worst case
/// (`2 x 300 + 1` s) plus margin.
pub const DEFAULT_AGENT_TIMEOUT_SECS: u64 = 660;

/// Configuration of the orchestrator.
#[derive(Debug, Clone)]
pub struct MagiConfig {
    /// Maximum time to wait for each agent call (default 660 s).
    pub timeout: Duration,
    /// Maximum accepted size of the content, in bytes (default 4 MB).
    pub max_input_len: usize,
    /// Whether a schema or parse failure gets one corrective retry (default on).
    pub retry_on_schema_error: bool,
    /// Estimated input size, in tokens, above which an analysis warns (never rejects).
    pub input_warn_tokens: usize,
}

impl Default for MagiConfig {
    fn default() -> (c: Self)
        ensures
            duration_secs(c.timeout) == DEFAULT_AGENT_TIMEOUT_SECS,
            duration_subsec_nanos(c.timeout) == 0,
            c.max_input_len == DEFAULT_MAX_INPUT_LEN,
            c.retry_on_schema_error,
            c.input_warn_tokens == DEFAULT_INPUT_WARN_TOKENS,
    {
        MagiConfig {
            timeout: duration_from_secs(DEFAULT_AGENT_TIMEOUT_SECS),
            max_input_len: DEFAULT_MAX_INPUT_LEN,
            retry_on_schema_error: true,
            input_warn_tokens: DEFAULT_INPUT_WARN_TOKENS,
        }
    }
}

// ---------------------------------------------------------------------------
// Input size telemetry
// ---------------------------------------------------------------------------

/// The measured size of an input against the warning threshold.
#[derive(Debug, Clone, Copy, PartialEq, Eq, Structural)]
pub struct InputSize {
    pub estimated_tokens: usize,
    pub warn_threshold: usize,
    /// Whether `estimated_tokens > warn_threshold`.
    pub exceeded: bool,
}

/// The token estimate of an input of `bytes` bytes.
pub open spec fn estimate_tokens_spec(bytes: nat) -> nat {
    bytes / 4
}

/// The estimated token count of `content`: its byte length divided by four,
/// rounded down.
pub fn estimate_tokens(content: &str) -> (n: usize)
    ensures
        n as nat == estimate_tokens_spec(content.spec_bytes().len()),
{
    content.as_bytes().len() / TOKENS_PER_BYTE_DIVISOR
}

/// Whether an estimate crosses the threshold: strictly greater, so an empty
/// input never warns, not even against a threshold of zero.
pub fn exceeds(estimated_tokens: usize, cfg: &MagiConfig) -> (b: bool)
    ensures
        b == (estimated_tokens > cfg.input_warn_tokens),
{
    estimated_tokens > cfg.input_warn_tokens
}

/// Measures `content` once and reports it against the configured threshold;
/// the flag is derived from the very count reported.
pub fn measure_input(content: &str, cfg: &MagiConfig) -> (s: InputSize)
    ensures
        s.estimated_tokens as nat == estimate_tokens_spec(content.spec_bytes().len()),
        s.warn_threshold == cfg.input_warn_tokens,
        s.exceeded == (s.estimated_tokens > s.warn_threshold),
{
    let estimated_tokens = estimate_tokens(content);
    InputSize {
        estimated_tokens,
        warn_threshold: cfg.input_warn_tokens,
        exceeded: exceeds(estimated_tokens, cfg),
    }
}

/// A threshold of zero does not switch the warning off: every input of at
/// least four bytes (one estimated token) crosses it, and the empty input
/// never does, since the comparison is strict.
pub proof fn law_zero_threshold_warns(bytes: nat)
    ensures
        bytes >= 4 ==> estimate_tokens_spec(bytes) > 0,
        estimate_tokens_spec(0) == 0,
{
}

/// The one check that rejects an input on size, before anything else runs:
/// an input of more bytes than `max_input_len` is refused with its size and
/// the limit; the warning threshold never refuses anything.
pub fn check_input_size(content: &str, cfg: &MagiConfig) -> (r: Result<(), MagiError>)
    ensures
        r is Ok <==> content.spec_bytes().len() <= cfg.max_input_len,
        r matches Err(e) ==> e == (MagiError::InputTooLarge {
            size: content.spec_bytes().len() as usize,
            max: cfg.max_input_len,
        }),
{
    let size = content.as_bytes().len();
    if size > cfg.max_input_len {
        Err(MagiError::InputTooLarge { size, max: cfg.max_input_len })
    } else {
        Ok(())
    }
}

/// A run is degraded when fewer than all three seats produced a verdict.
pub fn is_degraded(successful: usize) -> (b: bool)
    ensures
        b == (successful < 3),
{
    successful < 3
}

/// Whether the warning threshold can never fire because the size limit
/// rejects every input large enough to cross it: the smallest warning input
/// is `4 * (threshold + 1)` bytes (computed saturating).
pub open spec fn warn_threshold_unreachable_spec(warn_tokens: nat, max_input_len: nat) -> bool {
    let smallest = (warn_tokens + 1) * 4;
    let saturated = if smallest > usize::MAX {
        usize::MAX as nat
    } else {
        smallest
    };
    saturated > max_input_len
}

/// True when the warning threshold can never fire, because the size limit rejects first.
pub fn warn_threshold_is_unreachable(cfg: &MagiConfig) -> (b: bool)
    ensures
        b == warn_threshold_unreachable_spec(
            cfg.input_warn_tokens as nat,
            cfg.max_input_len as nat,
        ),
{
    let plus_one: usize = if cfg.input_warn_tokens == usize::MAX {
        usize::MAX
    } else {
        cfg.input_warn_tokens + 1
    };
    let smallest: usize = match plus_one.checked_mul(TOKENS_PER_BYTE_DIVISOR) {
        Some(v) => v,
        None => usize::MAX,
    };
    proof {
        if cfg.input_warn_tokens == usize::MAX {
            assert((cfg.input_warn_tokens + 1) * 4 > usize::MAX);
        }
    }
    smallest > cfg.max_input_len
}

/// The reported unreachability is exact: the threshold is unreachable
/// precisely when no input the size limit accepts would make the estimate
/// cross it. The one configuration left out is the saturated corner, where
/// `4 * (threshold + 1)` exceeds `usize::MAX` and the limit is `usize::MAX`
/// itself: saturation then makes the two sides compare equal.
pub proof fn law_unreachable_threshold_is_exact(warn_tokens: usize, max_input_len: usize)
    requires
        !((warn_tokens + 1) * 4 > usize::MAX && max_input_len == usize::MAX),
    ensures
        warn_threshold_unreachable_spec(warn_tokens as nat, max_input_len as nat) <==> (forall|
            len: nat,
        | len <= max_input_len ==> !(estimate_tokens_spec(len) > warn_tokens)),
{
    let smallest = (warn_tokens + 1) * 4;
    if warn_threshold_unreachable_spec(warn_tokens as nat, max_input_len as nat) {
        assert forall|len: nat| len <= max_input_len implies !(estimate_tokens_spec(len)
            > warn_tokens) by {
            assert(len < smallest);
        }
    } else {
        assert(smallest <= max_input_len);
        assert(estimate_tokens_spec(smallest as nat) > warn_tokens);
    }
}

// ---------------------------------------------------------------------------
// Worst case per seat
// ---------------------------------------------------------------------------

/// The worst-case wall clock of one seat, in nanoseconds:
/// `timeout * calls_per_model * (1 + max_rotations)`, saturating.
pub open spec fn worst_case_nanos(
    timeout_nanos: int,
    retry_on_schema_error: bool,
    max_rotations: Option<u32>,
) -> int {
    let calls: int = if retry_on_schema_error {
        2
    } else {
        1
    };
    let models: int = match max_rotations {
        None => 1,
        Some(r) => if r as int + 1 > u32::MAX {
            u32::MAX as int
        } else {
            r as int + 1
        },
    };
    let once = if timeout_nanos * calls <= max_duration_nanos() {
        timeout_nanos * calls
    } else {
        max_duration_nanos()
    };
    if once * models <= max_duration_nanos() {
        once * models
    } else {
        max_duration_nanos()
    }
}

impl MagiConfig {
    /// The worst-case wall clock one seat can spend: each call is bounded by
    /// `timeout`, a model takes two calls when the corrective retry is on, and
    /// a seat may use `1 + max_rotations` models (`None`: rotation disabled).
    /// Per seat, never per run; saturating, never failing.
    pub fn worst_case_per_seat(&self, max_rotations: Option<u32>) -> (d: Duration)
        ensures
            duration_nanos(d) == worst_case_nanos(
                duration_nanos(self.timeout),
                self.retry_on_schema_error,
                max_rotations,
            ),
    {
        let calls_per_model: u32 = if self.retry_on_schema_error {
            2
        } else {
            1
        };
        let models: u32 = match max_rotations {
            None => 1,
            Some(r) => if r == u32::MAX {
                u32::MAX
            } else {
                r + 1
            },
        };
        let once = saturating_mul_duration(self.timeout, calls_per_model);
        saturating_mul_duration(once, models)
    }
}

/// The message an agent-timeout cut reports, naming the configured ceiling.
pub open spec fn timeout_message_text(is_corrective_retry: bool, ceiling: Duration) -> Seq<char> {
    (if is_corrective_retry {
        "retry-failed: timeout"@
    } else {
        "timeout: agent timed out"@
    }) + " at its configured ceiling of "@ + duration_debug_text(
        duration_secs(ceiling) as nat,
        duration_subsec_nanos(ceiling) as nat,
    )
}

/// The message an agent-timeout cut reports: which phase was cut, and the
/// configured ceiling that cut it.
pub fn agent_timeout_message(is_corrective_retry: bool, ceiling: Duration) -> (r: String)
    ensures
        r@ == timeout_message_text(is_corrective_retry, ceiling),
{
    let mut out: Vec<char> = Vec::new();
    if is_corrective_retry {
        push_str(&mut out, "retry-failed: timeout");
    } else {
        push_str(&mut out, "timeout: agent timed out");
    }
    push_str(&mut out, " at its configured ceiling of ");
    push_duration_debug(&mut out, ceiling);
    assert(out@ =~= timeout_message_text(is_corrective_retry, ceiling));
    string_of(&out)
}

// ---------------------------------------------------------------------------
// Routing a provider failure
// ---------------------------------------------------------------------------

/// Why a seat moved to another model, for telemetry.
#[derive(Debug, Clone, Copy, PartialEq, Eq, Structural)]
pub enum RotationKind {
    Transport,
    Timeout,
    Schema,
    ResponseContract,
    EmptyCompletion,
    OversizedResponse,
    ExternalFailure,
}

/// A rotation kind is mage-local unless it is one of the two transport kinds,
/// which condemn the lineage for the whole run.
pub open spec fn kind_is_mage_local(k: RotationKind) -> bool {
    !(k is Transport || k is Timeout)
}

impl RotationKind {
    /// Whether a rotation of this kind cost only the seat that made it (the
    /// lineage stays with the other seats), as opposed to a run-wide one.
    pub fn is_mage_local(&self) -> (b: bool)
        ensures
            b == kind_is_mage_local(*self),
    {
        match self {
            RotationKind::Transport | RotationKind::Timeout => false,
            _ => true,
        }
    }
}

/// What one model attempt came to.
#[derive(Debug)]
pub enum ModelOutcome {
    /// A valid verdict was committed.
    Success(AgentOutput),
    /// Schema/parse failure: mage-local condemnation, then rotate.
    Schema(String),
    /// Transport failure or timeout: run-wide condemnation, then rotate.
    Transport { detail: String, connection: bool, kind: RotationKind },
    /// A content or contract failure the endpoint answered with: mage-local, then rotate.
    MageLocal { detail: String, kind: RotationKind },
    /// The backend generated nothing at all: a defect of this crate. Never rotates.
    CrateDefect { observation: String, hypothesis: &'static str },
    /// Body over the cap on a successful response: mage-local, then rotate.
    OversizedResponse { limit: usize },
    /// Failure reported by an external provider: mage-local, then rotate.
    ExternalFailure { detail: String, kind: ExternalErrorKind },
    /// Neither schema nor transport: never rotates.
    Unexpected(String),
}

/// Only a network failure is evidence that an endpoint cannot be reached.
pub open spec fn is_connection_spec(e: ProviderError) -> bool {
    e is Network
}

/// Whether a provider failure is connection-level evidence for the
/// endpoint-down latch: only `Network` is; every failure in which the
/// endpoint answered, and every external report, is not.
pub fn is_connection(err: &ProviderError) -> (b: bool)
    ensures
        b == is_connection_spec(*err),
{
    match err {
        ProviderError::Network { .. } => true,
        ProviderError::Http { .. }
        | ProviderError::Timeout { .. }
        | ProviderError::Auth { .. }
        | ProviderError::Process { .. }
        | ProviderError::NestedSession
        | ProviderError::RetryAbandoned { .. }
        | ProviderError::ResponseTooLarge { .. } => false,
        ProviderError::External { .. } => false,
        ProviderError::ResponseContract { .. }
        | ProviderError::EmptyCompletion { .. }
        | ProviderError::NoGeneration { .. } => false,
    }
}

/// The one cause known to produce an accepted request that generates nothing.
pub const CRATE_DEFECT_HYPOTHESIS: &'static str =
    "the known cause is a request without `messages`, which points at a defect in magi-core";

/// The observation recorded for a generation that never happened.
pub open spec fn no_generation_observation(done_reason: Option<FinishReason>) -> Seq<char> {
    "no generation - token counters absent (termination: "@ + finish_opt_debug(done_reason) + ")"@
}

/// How `provider_err_outcome` routes each failure.
pub open spec fn outcome_spec(err: ProviderError, o: ModelOutcome) -> bool {
    let detail = provider_error_text(err);
    match err {
        ProviderError::ResponseTooLarge { limit } => o == ModelOutcome::OversizedResponse { limit },
        ProviderError::External { kind, .. } => o matches ModelOutcome::ExternalFailure {
            detail: d,
            kind: k,
        } && d@ == detail && k == kind,
        ProviderError::Timeout { .. } => o matches ModelOutcome::Transport {
            detail: d,
            connection: c,
            kind: k,
        } && d@ == detail && !c && k == RotationKind::Timeout,
        ProviderError::ResponseContract { .. } => o matches ModelOutcome::MageLocal {
            detail: d,
            kind: k,
        } && d@ == detail && k == RotationKind::ResponseContract,
        ProviderError::EmptyCompletion { .. } => o matches ModelOutcome::MageLocal {
            detail: d,
            kind: k,
        } && d@ == detail && k == RotationKind::EmptyCompletion,
        ProviderError::NoGeneration { done_reason } => o matches ModelOutcome::CrateDefect {
            observation: ob,
            hypothesis: h,
        } && ob@ == no_generation_observation(done_reason) && h@ == CRATE_DEFECT_HYPOTHESIS@,
        _ => o matches ModelOutcome::Transport { detail: d, connection: c, kind: k } && d@
            == detail && c == is_connection_spec(err) && k == RotationKind::Transport,
    }
}

/// Maps a surfaced provider failure to the outcome the rotation loop acts on.
///
/// An oversized body, an external report, a contract failure and an empty
/// completion are mage-local (they never condemn a lineage run-wide); a
/// generation that never happened is a defect of this crate; every other
/// failure is a run-wide transport condemnation, connection-class only for
/// `Network`.
pub fn provider_err_outcome(err: ProviderError) -> (o: ModelOutcome)
    ensures
        outcome_spec(err, o),
{
    let ghost e = err;
    let connection = is_connection(&err);
    match err {
        ProviderError::ResponseTooLarge { limit } => ModelOutcome::OversizedResponse { limit },
        ProviderError::External { kind, .. } => {
            let detail = err.message();
            ModelOutcome::ExternalFailure { detail, kind }
        },
        ProviderError::Timeout { .. } => {
            let detail = err.message();
            ModelOutcome::Transport { detail, connection, kind: RotationKind::Timeout }
        },
        ProviderError::Http { .. }
        | ProviderError::Network { .. }
        | ProviderError::Auth { .. }
        | ProviderError::Process { .. }
        | ProviderError::RetryAbandoned { .. }
        | ProviderError::NestedSession => {
            let detail = err.message();
            ModelOutcome::Transport { detail, connection, kind: RotationKind::Transport }
        },
        ProviderError::ResponseContract { .. } => {
            let detail = err.message();
            ModelOutcome::MageLocal { detail, kind: RotationKind::ResponseContract }
        },
        ProviderError::EmptyCompletion { .. } => {
            let detail = err.message();
            ModelOutcome::MageLocal { detail, kind: RotationKind::EmptyCompletion }
        },
        ProviderError::NoGeneration { done_reason } => {
            let mut out: Vec<char> = Vec::new();
            push_str(&mut out, "no generation - token counters absent (termination: ");
            push_finish_opt_debug(&mut out, &done_reason);
            push_str(&mut out, ")");
            assert(out@ =~= no_generation_observation(done_reason));
            ModelOutcome::CrateDefect {
                observation: string_of(&out),
                hypothesis: CRATE_DEFECT_HYPOTHESIS,
            }
        },
    }
}

/// A failure stays with the seat that saw it: an oversized body, an external
/// report, a contract failure, an empty completion.
pub open spec fn is_mage_local_spec(e: ProviderError) -> bool {
    e is ResponseTooLarge || e is External || e is ResponseContract || e is EmptyCompletion
}

/// Whether a provider failure stays with the seat that saw it.
pub fn is_mage_local(err: &ProviderError) -> (b: bool)
    ensures
        b == is_mage_local_spec(*err),
{
    match err {
        ProviderError::ResponseTooLarge { .. }
        | ProviderError::External { .. }
        | ProviderError::ResponseContract { .. }
        | ProviderError::EmptyCompletion { .. } => true,
        _ => false,
    }
}

/// A mage-local failure never takes the run-wide transport route and never
/// feeds the endpoint-down latch.
pub proof fn law_mage_local_never_run_wide(err: ProviderError, o: ModelOutcome)
    requires
        outcome_spec(err, o),
        is_mage_local_spec(err),
    ensures
        !(o is Transport),
        !is_connection_spec(err),
{
}

/// The scope a rotation kind reports agrees with the route the classifier
/// takes: a mage-local outcome carries a mage-local kind, a transport outcome
/// a run-wide one.
pub proof fn law_scope_accessor_agrees_with_classifier(err: ProviderError, o: ModelOutcome)
    requires
        outcome_spec(err, o),
    ensures
        o matches ModelOutcome::MageLocal { kind, .. } ==> kind_is_mage_local(kind),
        o matches ModelOutcome::Transport { kind, .. } ==> !kind_is_mage_local(kind),
        o is OversizedResponse ==> kind_is_mage_local(RotationKind::OversizedResponse),
        o is ExternalFailure ==> kind_is_mage_local(RotationKind::ExternalFailure),
{
}

/// A failure is mage-local exactly when the classifier routes it to one of the
/// outcomes that cost only the seat (never to transport, never to a defect).
pub proof fn law_mage_local_is_the_seat_scoped_route(err: ProviderError, o: ModelOutcome)
    requires
        outcome_spec(err, o),
    ensures
        is_mage_local_spec(err) <==> (o is MageLocal || o is ExternalFailure
            || o is OversizedResponse),
{
}

/// Only a network failure is routed as connection-class transport.
pub proof fn law_only_network_is_connection_class(err: ProviderError, o: ModelOutcome)
    requires
        outcome_spec(err, o),
    ensures
        (o matches ModelOutcome::Transport { connection, .. } && connection) <==> err is Network,
{
}

/// What the run records about a defect of this crate.
#[derive(Debug, Clone)]
pub struct CrateDefectRecord {
    pub observation: String,
    pub hypothesis: &'static str,
    pub agent: AgentName,
    pub model: String,
}

/// Whether a surfaced failure is a defect of this crate, and what to record if
/// so; asks the classifier rather than re-deciding.
pub fn crate_defect_of(err: ProviderError, agent: AgentName, model: &str) -> (r: Option<
    CrateDefectRecord,
>)
    ensures
        r is Some <==> err is NoGeneration,
        r matches Some(d) ==> d.agent == agent && d.model@ == model@ && d.hypothesis@
            == CRATE_DEFECT_HYPOTHESIS@ && d.observation@ == no_generation_observation(
            err->done_reason,
        ),
{
    let ghost e = err;
    match provider_err_outcome(err) {
        ModelOutcome::CrateDefect { observation, hypothesis } => Some(
            CrateDefectRecord {
                observation,
                hypothesis,
                agent,
                model: string_of(&chars_of(model)),
            },
        ),
        _ => None,
    }
}

// ---------------------------------------------------------------------------
// Quorum and abort bookkeeping
// ---------------------------------------------------------------------------

/// Whether the run can still reach its quorum: every seat already successful
/// plus every seat not yet joined, against `min_agents`.
pub fn quorum_reachable(successful: usize, remaining: usize, min_agents: usize) -> (b: bool)
    requires
        successful + remaining <= usize::MAX,
    ensures
        b == (successful + remaining >= min_agents),
{
    successful + remaining >= min_agents
}

/// With a quorum of one, any seat done or pending keeps the run alive.
pub proof fn law_single_verdict_quorum_never_aborts(successful: nat, remaining: nat, min_agents: nat)
    requires
        min_agents <= 1,
        successful + remaining >= 1,
    ensures
        successful + remaining >= min_agents,
{
}

/// The seats already joined, in canonical order, without repeats: a set.
pub open spec fn is_agent_set(v: Seq<AgentName>) -> bool {
    forall|i: int, j: int| 0 <= i < j < v.len() ==> agent_rank(v[i]) < agent_rank(v[j])
}

/// Seats dispatched but not yet joined.
pub fn remaining_seats(total: usize, joined: &Vec<AgentName>) -> (n: usize)
    requires
        joined.len() <= total,
    ensures
        n == total - joined.len(),
{
    total - joined.len()
}

fn push_unique(v: &mut Vec<AgentName>, a: AgentName)
    requires
        is_agent_set(old(v)@),
    ensures
        is_agent_set(final(v)@),
        forall|x: AgentName| final(v)@.contains(x) <==> (old(v)@.contains(x) || x == a),
{
    let mut i: usize = 0;
    while i < v.len()
        invariant
            i <= v.len(),
            v@ == old(v)@,
            is_agent_set(v@),
            forall|j: int| 0 <= j < i ==> agent_rank(#[trigger] v@[j]) < agent_rank(a),
        decreases v.len() - i,
    {
        let r = v[i].rank();
        if r == a.rank() {
            assert(v@[i as int] == a) by {
                assert(agent_rank(v@[i as int]) == agent_rank(a));
            }
            assert(v@.contains(a));
            return;
        }
        if r > a.rank() {
            let ghost before = v@;
            v.insert(i, a);
            assert forall|x: AgentName| v@.contains(x) <==> (before.contains(x) || x == a) by {
                if v@.contains(x) {
                    let k = choose|k: int| 0 <= k < v@.len() && v@[k] == x;
                    if k != i {
                        if k < i {
                            assert(v@[k] == before[k]);
                        } else {
                            assert(v@[k] == before[k - 1]);
                        }
                    }
                }
                if before.contains(x) {
                    let k = choose|k: int| 0 <= k < before.len() && before[k] == x;
                    if k < i {
                        assert(v@[k] == x);
                    } else {
                        assert(v@[k + 1] == x);
                    }
                }
                if x == a {
                    assert(v@[i as int] == a);
                }
            }
            return;
        }
        i = i + 1;
    }
    let ghost before = v@;
    v.push(a);
    assert forall|x: AgentName| v@.contains(x) <==> (before.contains(x) || x == a) by {
        if v@.contains(x) {
            let k = choose|k: int| 0 <= k < v@.len() && v@[k] == x;
            if k < before.len() {
                assert(before[k] == x);
            }
        }
        if before.contains(x) {
            let k = choose|k: int| 0 <= k < before.len() && before[k] == x;
            assert(v@[k] == x);
        }
        if x == a {
            assert(v@[before.len() as int] == a);
        }
    }
}

/// The seats already joined when an abort was reached: every successful
/// seat and every failed one, as a set in canonical order.
pub fn joined_so_far(successful: &[AgentOutput], failed: &[(AgentName, String)]) -> (r: Vec<
    AgentName,
>)
    ensures
        is_agent_set(r@),
        forall|x: AgentName|
            r@.contains(x) <==> ((exists|i: int|
                0 <= i < successful@.len() && #[trigger] successful@[i].agent == x) || (exists|
                j: int,
            | 0 <= j < failed@.len() && #[trigger] failed@[j].0 == x)),
{
    let mut out: Vec<AgentName> = Vec::new();
    let mut i: usize = 0;
    while i < successful.len()
        invariant
            i <= successful.len(),
            is_agent_set(out@),
            forall|x: AgentName|
                out@.contains(x) <==> (exists|k: int|
                    0 <= k < i && #[trigger] successful@[k].agent == x),
        decreases successful.len() - i,
    {
        push_unique(&mut out, successful[i].agent);
        proof {
            assert forall|x: AgentName| out@.contains(x) <==> (exists|k: int|
                0 <= k < i + 1 && #[trigger] successful@[k].agent == x) by {
                if x == successful@[i as int].agent {
                    assert(successful@[i as int].agent == x);
                }
            }
        }
        i = i + 1;
    }
    let mut j: usize = 0;
    while j < failed.len()
        invariant
            j <= failed.len(),
            is_agent_set(out@),
            forall|x: AgentName|
                out@.contains(x) <==> ((exists|k: int|
                    0 <= k < successful@.len() && #[trigger] successful@[k].agent == x) || (exists|
                    k: int,
                | 0 <= k < j && #[trigger] failed@[k].0 == x)),
        decreases failed.len() - j,
    {
        push_unique(&mut out, failed[j].0);
        proof {
            assert forall|x: AgentName| out@.contains(x) <==> ((exists|k: int|
                0 <= k < successful@.len() && #[trigger] successful@[k].agent == x) || (exists|
                k: int,
            | 0 <= k < j + 1 && #[trigger] failed@[k].0 == x)) by {
                if x == failed@[j as int].0 {
                    assert(failed@[j as int].0 == x);
                }
            }
        }
        j = j + 1;
    }
    out
}

/// The seats in `joined` other than `agent`, in order.
pub open spec fn others(joined: Seq<AgentName>, agent: AgentName) -> Seq<AgentName> {
    joined.filter(is_not(agent))
}

/// Whether a mage is not `agent`.
pub open spec fn is_not(agent: AgentName) -> spec_fn(AgentName) -> bool {
    |a: AgentName| a != agent
}

/// The run-aborting error for a latched defect. The seat that hit it is
/// named as `agent` and left out of `joined_before_abort`.
pub fn crate_defect_error(d: CrateDefectRecord, joined: &Vec<AgentName>) -> (e: MagiError)
    ensures
        e matches MagiError::CrateDefect {
            observation,
            hypothesis,
            agent,
            model,
            joined_before_abort,
        } && observation == d.observation && hypothesis == d.hypothesis && agent == d.agent
            && model == d.model && joined_before_abort@ == others(joined@, d.agent),
{
    let mut rest: Vec<AgentName> = Vec::new();
    let mut i: usize = 0;
    while i < joined.len()
        invariant
            i <= joined.len(),
            rest@ == others(joined@.take(i as int), d.agent),
        decreases joined.len() - i,
    {
        let ghost t = joined@.take(i + 1);
        assert(t.drop_last() =~= joined@.take(i as int));
        reveal_with_fuel(Seq::filter, 1);
        if joined[i] != d.agent {
            rest.push(joined[i]);
        }
        i = i + 1;
    }
    assert(joined@.take(joined.len() as int) =~= joined@);
    MagiError::CrateDefect {
        observation: d.observation,
        hypothesis: d.hypothesis,
        agent: d.agent,
        model: d.model,
        joined_before_abort: rest,
    }
}

/// What the join loop has collected so far.
pub struct JoinState {
    /// The verdicts, in join order.
    pub successful: Vec<AgentOutput>,
    /// The failed seats and their reasons, in join order.
    pub failed: Vec<(AgentName, String)>,
    /// The seats whose corrective retry fired, as a set in canonical order.
    pub retried: Vec<AgentName>,
}

/// How a dispatched seat came back.
pub enum JoinedSeat {
    /// It produced a verdict.
    Answered(AgentOutput),
    /// It failed with this reason.
    Failed(String),
    /// Its task ended abnormally; the text says how.
    Panicked(String),
}

impl JoinState {
    /// Nothing joined yet.
    pub fn new() -> (s: Self)
        ensures
            s.successful@.len() == 0,
            s.failed@.len() == 0,
            s.retried@.len() == 0,
    {
        JoinState { successful: Vec::new(), failed: Vec::new(), retried: Vec::new() }
    }

    /// Records one joined seat: a verdict joins the successful ones, a
    /// failure is filed with its reason, an abnormal exit is filed as
    /// `panic: <text>`. A seat that answered or failed after its corrective
    /// retry is added to the retried set; an abnormal exit lost that
    /// information and adds nothing.
    pub fn record(&mut self, name: AgentName, seat: JoinedSeat, was_retried: bool)
        requires
            is_agent_set(old(self).retried@),
        ensures
            is_agent_set(final(self).retried@),
            match seat {
                JoinedSeat::Answered(o) => final(self).successful@ == old(self).successful@.push(o)
                    && final(self).failed@ == old(self).failed@,
                JoinedSeat::Failed(r) => final(self).failed@ == old(self).failed@.push((name, r))
                    && final(self).successful@ == old(self).successful@,
                JoinedSeat::Panicked(t) => final(self).successful@ == old(self).successful@
                    && final(self).failed@.len() == old(self).failed@.len() + 1
                    && final(self).failed@.take(old(self).failed@.len() as int) == old(self).failed@
                    && final(self).failed@.last().0 == name && final(self).failed@.last().1@
                    == "panic: "@ + t@,
            },
            forall|x: AgentName|
                final(self).retried@.contains(x) <==> (old(self).retried@.contains(x) || (
                was_retried && !(seat is Panicked) && x == name)),
    {
        let retried_flag = match &seat {
            JoinedSeat::Panicked(_) => false,
            _ => was_retried,
        };
        match seat {
            JoinedSeat::Answered(o) => self.successful.push(o),
            JoinedSeat::Failed(r) => self.failed.push((name, r)),
            JoinedSeat::Panicked(t) => {
                let mut m: Vec<char> = Vec::new();
                push_str(&mut m, "panic: ");
                push_str(&mut m, t.as_str());
                let ghost before = self.failed@;
                self.failed.push((name, string_of(&m)));
                assert(self.failed@.take(before.len() as int) =~= before);
            },
        }
        if retried_flag {
            push_unique(&mut self.retried, name);
        }
    }
}

/// The quorum the consensus needs, checked once every seat has joined.
pub fn check_quorum(successful: usize, min_agents: usize) -> (r: Result<(), MagiError>)
    ensures
        r is Ok <==> successful >= min_agents,
        r matches Err(e) ==> e == (MagiError::InsufficientAgents {
            succeeded: successful,
            required: min_agents,
        }),
{
    if successful < min_agents {
        Err(MagiError::InsufficientAgents { succeeded: successful, required: min_agents })
    } else {
        Ok(())
    }
}

/// The error a run aborts with, from the latches the join loop consults: a
/// latched defect of this crate first, whatever the quorum; otherwise
/// endpoint-down, only when its latch is set and the quorum can no longer
/// be reached.
pub open spec fn run_abort_spec(
    defect: Option<CrateDefectRecord>,
    endpoint_down: bool,
    condemned: Seq<Lineage>,
    joined: Seq<AgentName>,
    successful: nat,
    remaining: nat,
    min_agents: nat,
    r: Option<MagiError>,
) -> bool {
    match defect {
        Some(d) => r matches Some(e) && e matches MagiError::CrateDefect {
            observation,
            hypothesis,
            agent,
            model,
            joined_before_abort,
        } && observation == d.observation && hypothesis == d.hypothesis && agent == d.agent
            && model == d.model && joined_before_abort@ == others(joined, d.agent),
        None => if endpoint_down && successful + remaining < min_agents {
            r matches Some(e) && e matches MagiError::EndpointDown { lineages } && lineages@
                == condemned
        } else {
            r is None
        },
    }
}

/// Whether the run must abort now, and with which error.
///
/// A defect of this crate is raised before endpoint-down: both can be latched
/// at once, and the defect is the one the operator must see. Only the
/// endpoint-down branch is conditioned on the quorum: the latch decides the
/// diagnosis, the quorum decides whether to act on it now.
pub fn resolve_run_abort(
    defect: Option<CrateDefectRecord>,
    endpoint_down: bool,
    condemned: Vec<Lineage>,
    joined: &Vec<AgentName>,
    successful: usize,
    remaining: usize,
    min_agents: usize,
) -> (r: Option<MagiError>)
    requires
        successful + remaining <= usize::MAX,
    ensures
        run_abort_spec(
            defect,
            endpoint_down,
            condemned@,
            joined@,
            successful as nat,
            remaining as nat,
            min_agents as nat,
            r,
        ),
{
    match defect {
        Some(d) => Some(crate_defect_error(d, joined)),
        None => {
            if endpoint_down && !quorum_reachable(successful, remaining, min_agents) {
                Some(MagiError::EndpointDown { lineages: condemned })
            } else {
                None
            }
        },
    }
}

/// A latched defect of this crate always wins over a simultaneous
/// endpoint-down signal.
pub proof fn law_defect_outranks_endpoint_down(
    d: CrateDefectRecord,
    condemned: Seq<Lineage>,
    joined: Seq<AgentName>,
    successful: nat,
    remaining: nat,
    min_agents: nat,
    r: Option<MagiError>,
)
    requires
        run_abort_spec(Some(d), true, condemned, joined, successful, remaining, min_agents, r),
    ensures
        r matches Some(e) && e is CrateDefect,
{
}

/// The endpoint-down latch never aborts a run that can still reach its
/// quorum, and with a quorum of one it never aborts while any seat is done or
/// pending.
pub proof fn law_endpoint_down_waits_for_an_unreachable_quorum(
    condemned: Seq<Lineage>,
    joined: Seq<AgentName>,
    successful: nat,
    remaining: nat,
    min_agents: nat,
    r: Option<MagiError>,
)
    requires
        run_abort_spec(None, true, condemned, joined, successful, remaining, min_agents, r),
    ensures
        successful + remaining >= min_agents ==> r is None,
        min_agents <= 1 && successful + remaining >= 1 ==> r is None,
        r is None || (r matches Some(e) && e is EndpointDown),
{
}

// ---------------------------------------------------------------------------
// Extraction failures
// ---------------------------------------------------------------------------

/// Why an agent response yielded no usable verdict.
#[derive(Debug, Clone, Copy, PartialEq, Eq, Structural)]
#[non_exhaustive]
pub enum ExtractionFailureCause {
    /// The verdict object failed schema validation.
    Schema,
    /// The verdict reproduces the worked example of the instructions.
    EchoedExample,
    /// The verdict names another mage than the one it was dispatched to.
    AgentIdentity,
    /// No verdict markers.
    MissingMarkers,
    /// An opening marker with no closing one.
    Unterminated,
    /// More than one verdict block.
    Ambiguous,
    /// The delimited block is not valid JSON.
    InvalidJson,
    /// A cause this crate does not name.
    Other,
}

/// An output was obtained and then rejected (`Validation`), or none was
/// obtained at all (`Deserialization`).
pub open spec fn obtained_output(cause: ExtractionFailureCause) -> bool {
    match cause {
        ExtractionFailureCause::Schema => true,
        ExtractionFailureCause::EchoedExample => true,
        ExtractionFailureCause::AgentIdentity => true,
        _ => false,
    }
}

/// The error an extraction failure is reported as: `Validation` when an
/// output was obtained and rejected, `Deserialization` when none was.
pub fn magi_error_for(cause: ExtractionFailureCause, message: &str) -> (e: MagiError)
    ensures
        obtained_output(cause) ==> (e matches MagiError::Validation(m) && m@ == message@),
        !obtained_output(cause) ==> (e matches MagiError::Deserialization(m) && m@ == message@),
{
    let m = string_of(&chars_of(message));
    match cause {
        ExtractionFailureCause::Schema
        | ExtractionFailureCause::EchoedExample
        | ExtractionFailureCause::AgentIdentity => MagiError::Validation(m),
        _ => MagiError::Deserialization(m),
    }
}

/// A parse/validate failure carrying its typed cause beside the error.
#[derive(Debug)]
pub struct ParseFailure {
    pub cause: ExtractionFailureCause,
    pub error: MagiError,
}

impl ParseFailure {
    pub fn new(cause: ExtractionFailureCause, message: &str) -> (f: ParseFailure)
        ensures
            f.cause == cause,
            obtained_output(cause) ==> (f.error matches MagiError::Validation(m) && m@
                == message@),
            !obtained_output(cause) ==> (f.error matches MagiError::Deserialization(m) && m@
                == message@),
    {
        ParseFailure { error: magi_error_for(cause, message), cause }
    }
}

/// What a rejected echo of the worked example reports.
pub const ECHOED_EXAMPLE_MESSAGE: &'static str =
    "the verdict reproduces the worked example from the instructions verbatim, so it is not an analysis";

/// What a verdict that names the wrong mage reports.
pub open spec fn identity_message_text(claimed: AgentName, dispatched: AgentName) -> Seq<char> {
    "verdict claims to come from "@ + agent_display(claimed) + " but was dispatched to "@
        + agent_display(dispatched)
}

/// Whether an error is a validation failure with exactly this message.
pub open spec fn is_validation_of(e: MagiError, message: Seq<char>) -> bool {
    e matches MagiError::Validation(m) && m@ == message
}

/// Whether a verdict reproduces the worked example (its summary and its
/// recommendation are the example's).
pub open spec fn is_echo(output: AgentOutput, canary_summary: Seq<char>, canary_recommendation: Seq<
    char,
>) -> bool {
    output.summary@ == canary_summary && output.recommendation@ == canary_recommendation
}

/// The two checks a validated verdict still has to pass, in the order that
/// matters: an echo of the worked example is rejected first (its feedback
/// subsumes the identity fix), then a verdict that names another mage than
/// the one it was dispatched to. Both are validation failures: an output was
/// obtained and rejected.
pub fn check_verdict(
    output: AgentOutput,
    dispatched_to: AgentName,
    canary_summary: &str,
    canary_recommendation: &str,
) -> (r: Result<AgentOutput, ParseFailure>)
    ensures
        is_echo(output, canary_summary@, canary_recommendation@) ==> (r matches Err(f) && f.cause
            == ExtractionFailureCause::EchoedExample && is_validation_of(
            f.error,
            ECHOED_EXAMPLE_MESSAGE@,
        )),
        !is_echo(output, canary_summary@, canary_recommendation@) && output.agent != dispatched_to
            ==> (r matches Err(f) && f.cause == ExtractionFailureCause::AgentIdentity
            && is_validation_of(f.error, identity_message_text(output.agent, dispatched_to))),
        !is_echo(output, canary_summary@, canary_recommendation@) && output.agent == dispatched_to
            ==> r == Ok::<AgentOutput, ParseFailure>(output),
{
    let summary = chars_of(output.summary.as_str());
    let recommendation = chars_of(output.recommendation.as_str());
    if chars_eq(&summary, &chars_of(canary_summary)) && chars_eq(
        &recommendation,
        &chars_of(canary_recommendation),
    ) {
        return Err(ParseFailure::new(ExtractionFailureCause::EchoedExample, ECHOED_EXAMPLE_MESSAGE));
    }
    if output.agent != dispatched_to {
        let mut m: Vec<char> = Vec::new();
        push_str(&mut m, "verdict claims to come from ");
        push_str(&mut m, output.agent.display_name());
        push_str(&mut m, " but was dispatched to ");
        push_str(&mut m, dispatched_to.display_name());
        assert(m@ =~= identity_message_text(output.agent, dispatched_to));
        let message = string_of(&m);
        return Err(ParseFailure::new(ExtractionFailureCause::AgentIdentity, message.as_str()));
    }
    Ok(output)
}

/// Every extraction failure maps to one of the two retried variants.
pub proof fn law_every_extraction_failure_is_retried_kind(
    cause: ExtractionFailureCause,
    e: MagiError,
    message: Seq<char>,
)
    requires
        obtained_output(cause) ==> (e matches MagiError::Validation(m) && m@ == message),
        !obtained_output(cause) ==> (e matches MagiError::Deserialization(m) && m@ == message),
    ensures
        e is Validation || e is Deserialization,
{
}

/// Why a run was skipped when the complexity gate turned its input away:
/// `complexity gate rejected: mode=<mode>, content_len=<bytes>`.
pub fn complexity_gate_reason(mode: Mode, content_len: usize) -> (r: String)
    ensures
        r@ == "complexity gate rejected: mode="@ + mode_display(mode) + ", content_len="@
            + dec_text(content_len as nat),
{
    let mut out: Vec<char> = Vec::new();
    push_str(&mut out, "complexity gate rejected: mode=");
    push_str(&mut out, mode.display_name());
    push_str(&mut out, ", content_len=");
    push_decimal(&mut out, content_len as u64);
    string_of(&out)
}

/// The complexity gate's verdict on a run: `admitted` is what the caller's
/// gate returned for input of `content_len` bytes in `mode`. An admitted run
/// goes on; one turned away ends with `SkippedByComplexityGate`, whose reason
/// names the mode and the byte length.
pub fn check_gate(mode: Mode, content_len: usize, admitted: bool) -> (r: Result<(), MagiError>)
    ensures
        admitted <==> r is Ok,
        !admitted ==> (r matches Err(MagiError::SkippedByComplexityGate { reason }) && reason@
            == "complexity gate rejected: mode="@ + mode_display(mode) + ", content_len="@
            + dec_text(content_len as nat)),
{
    if admitted {
        Ok(())
    } else {
        Err(MagiError::SkippedByComplexityGate { reason: complexity_gate_reason(mode, content_len) })
    }
}

// ---------------------------------------------------------------------------
// Admission of an input
// ---------------------------------------------------------------------------

/// What an analysis does with its input before any agent is created.
#[derive(Debug)]
pub enum Admission {
    /// The input is refused with this error; nothing further runs: no gate,
    /// no agent, no provider call.
    Refused(MagiError),
    /// Ask the caller's complexity gate, then hand its answer to `after_gate`.
    AskGate,
    /// Go on to dispatch; this is the input's measurement (telemetry only).
    Dispatch(InputSize),
}

/// The measurement `measure_input` reports for an input of `bytes` bytes.
pub open spec fn measured(bytes: nat, cfg: MagiConfig) -> InputSize {
    InputSize {
        estimated_tokens: estimate_tokens_spec(bytes) as usize,
        warn_threshold: cfg.input_warn_tokens,
        exceeded: estimate_tokens_spec(bytes) > cfg.input_warn_tokens,
    }
}

/// The first step of an analysis. The size check comes first: an input over
/// the limit is refused at once, and the complexity predicate, which may
/// keep state of its own, is never consulted for it. An input within the
/// limit is handed to the predicate when the caller set one, and otherwise
/// goes on to dispatch with its measurement, which never refuses.
pub fn screen_input(content: &str, cfg: &MagiConfig, has_gate: bool) -> (a: Admission)
    ensures
        content.spec_bytes().len() > cfg.max_input_len ==> a == Admission::Refused(
            MagiError::InputTooLarge { size: content.spec_bytes().len() as usize, max: cfg.max_input_len },
        ),
        content.spec_bytes().len() <= cfg.max_input_len && has_gate ==> a is AskGate,
        content.spec_bytes().len() <= cfg.max_input_len && !has_gate ==> a == Admission::Dispatch(
            measured(content.spec_bytes().len(), *cfg),
        ),
{
    match check_input_size(content, cfg) {
        Err(e) => Admission::Refused(e),
        Ok(()) => if has_gate {
            Admission::AskGate
        } else {
            Admission::Dispatch(measure_input(content, cfg))
        },
    }
}

/// The step after the complexity predicate answered `admitted` for `content`
/// in `mode`: a refused input ends the analysis with the reason `check_gate`
/// gives, before any agent exists; an accepted one goes on to dispatch with
/// its measurement.
pub fn after_gate(mode: Mode, content: &str, cfg: &MagiConfig, admitted: bool) -> (a: Admission)
    ensures
        !admitted ==> (a matches Admission::Refused(MagiError::SkippedByComplexityGate { reason })
            && reason@ == "complexity gate rejected: mode="@ + mode_display(mode) + ", content_len="@
            + dec_text(content.spec_bytes().len())),
        admitted ==> a == Admission::Dispatch(measured(content.spec_bytes().len(), *cfg)),
{
    match check_gate(mode, content.as_bytes().len(), admitted) {
        Err(e) => Admission::Refused(e),
        Ok(()) => Admission::Dispatch(measure_input(content, cfg)),
    }
}

// ---------------------------------------------------------------------------
// Rotation details
// ---------------------------------------------------------------------------

/// The rotation detail for an oversized response body.
pub fn oversized_detail(limit: usize) -> (r: String)
    ensures
        r@ == "response body exceeded "@ + dec_text(limit as nat) + " bytes"@,
{
    let mut out: Vec<char> = Vec::new();
    push_str(&mut out, "response body exceeded ");
    push_decimal(&mut out, limit as u64);
    push_str(&mut out, " bytes");
    string_of(&out)
}

/// The rotation detail for a failure reported by a third-party backend.
pub fn external_failure_detail(kind: ExternalErrorKind, detail: &str) -> (r: String)
    ensures
        r@ == "external ("@ + external_kind_debug(kind) + "): "@ + detail@,
{
    let mut out: Vec<char> = Vec::new();
    push_str(&mut out, "external (");
    push_str(&mut out, kind.debug_name());
    push_str(&mut out, "): ");
    push_str(&mut out, detail);
    string_of(&out)
}

// ---------------------------------------------------------------------------
// Rotation telemetry
// ---------------------------------------------------------------------------

/// The rotation telemetry of a seat that never rotated: it used the model it
/// was configured with, and its chain is empty.
fn unrotated(model: String) -> (r: AgentRotation)
    ensures
        r.model_configured@ == model@,
        r.model_used@ == model@,
        r.chain@.len() == 0,
        !r.ran_unmeasured,
{
    let used = model.clone();
    AgentRotation { model_configured: model, model_used: used, chain: Vec::new(), ran_unmeasured: false }
}

/// The default rotation telemetry for every agent, one for one and in order:
/// each used the model it was configured with, with an empty chain. Used
/// where rotation is off, and as the starting point where it is on.
pub fn default_rotations(agent_models: Vec<(AgentName, String)>) -> (r: Vec<(AgentName, AgentRotation)>)
    ensures
        r.len() == agent_models.len(),
        forall|i: int|
            0 <= i < r.len() ==> {
                &&& (#[trigger] r@[i]).0 == agent_models@[i].0
                &&& r@[i].1.model_configured@ == agent_models@[i].1@
                &&& r@[i].1.model_used@ == agent_models@[i].1@
                &&& r@[i].1.chain@.len() == 0
                &&& !r@[i].1.ran_unmeasured
            },
{
    let mut out: Vec<(AgentName, AgentRotation)> = Vec::new();
    let mut i: usize = 0;
    while i < agent_models.len()
        invariant
            i <= agent_models.len(),
            out.len() == i,
            forall|k: int|
                0 <= k < i ==> {
                    &&& (#[trigger] out@[k]).0 == agent_models@[k].0
                    &&& out@[k].1.model_configured@ == agent_models@[k].1@
                    &&& out@[k].1.model_used@ == agent_models@[k].1@
                    &&& out@[k].1.chain@.len() == 0
                    &&& !out@[k].1.ran_unmeasured
                },
        decreases agent_models.len() - i,
    {
        let agent = agent_models[i].0;
        let model = agent_models[i].1.clone();
        out.push((agent, unrotated(model)));
        i = i + 1;
    }
    out
}

// ---------------------------------------------------------------------------
// Probe declarations
// ---------------------------------------------------------------------------

/// A configuration condition about probe declarations worth one warning.
#[derive(Debug, Clone, PartialEq, Eq)]
pub enum ProbeWarning {
    /// A probe filed under `filed_under` declares it measures `declares`.
    DeclaresAnotherModel { filed_under: String, declares: String },
    /// Two probes are filed under the same model; the last to answer wins.
    TwoProbesForOneModel { model: String },
}

/// The warnings a list of probe targets calls for, in order: for each
/// `(model, declared)` pair, a disagreement when the probe declares a model
/// other than the one it is filed under (a probe that declares nothing is
/// checked against nothing), then a repeat when that model was already filed.
pub open spec fn probe_warnings_spec(targets: Seq<(Seq<char>, Option<Seq<char>>)>) -> Seq<
    (u8, Seq<char>, Seq<char>),
>
    decreases targets.len(),
{
    if targets.len() == 0 {
        Seq::empty()
    } else {
        let prev = probe_warnings_spec(targets.drop_last());
        let (model, declared) = targets.last();
        let with_declared = match declared {
            Some(d) => if d != model {
                prev.push((0u8, model, d))
            } else {
                prev
            },
            None => prev,
        };
        if exists|i: int| 0 <= i < targets.len() - 1 && (#[trigger] targets[i]).0 == model {
            with_declared.push((1u8, model, Seq::empty()))
        } else {
            with_declared
        }
    }
}

impl View for ProbeWarning {
    type V = (u8, Seq<char>, Seq<char>);

    open spec fn view(&self) -> (u8, Seq<char>, Seq<char>) {
        match self {
            ProbeWarning::DeclaresAnotherModel { filed_under, declares } => (
                0u8,
                filed_under@,
                declares@,
            ),
            ProbeWarning::TwoProbesForOneModel { model } => (1u8, model@, Seq::empty()),
        }
    }
}

pub open spec fn target_views(targets: Seq<(String, Option<String>)>) -> Seq<
    (Seq<char>, Option<Seq<char>>),
> {
    targets.map_values(
        |t: (String, Option<String>)|
            (
                t.0@,
                match t.1 {
                    Some(d) => Some(d@),
                    None => None,
                },
            ),
    )
}

/// Names the two ways a probe declaration can be wrong without anything
/// failing: a probe filed under a model it says is not its own, and one
/// model filed twice. Never rejects.
pub fn probe_warnings(targets: &[(String, Option<String>)]) -> (r: Vec<ProbeWarning>)
    ensures
        r@.map_values(|w: ProbeWarning| w@) == probe_warnings_spec(target_views(targets@)),
{
    let ghost tv = target_views(targets@);
    let mut out: Vec<ProbeWarning> = Vec::new();
    let mut i: usize = 0;
    while i < targets.len()
        invariant
            i <= targets.len(),
            tv == target_views(targets@),
            tv.len() == targets.len(),
            out@.map_values(|w: ProbeWarning| w@) =~= probe_warnings_spec(tv.take(i as int)),
        decreases targets.len() - i,
    {
        let ghost t = tv.take(i + 1);
        assert(t.drop_last() =~= tv.take(i as int));
        let model = chars_of(targets[i].0.as_str());
        assert(t.last().0 == model@);
        match &targets[i].1 {
            Some(d) => {
                let dc = chars_of(d.as_str());
                if !chars_eq(&dc, &model) {
                    out.push(
                        ProbeWarning::DeclaresAnotherModel {
                            filed_under: targets[i].0.clone(),
                            declares: d.clone(),
                        },
                    );
                }
            },
            None => {},
        }
        let mut seen = false;
        let mut k: usize = 0;
        while k < i
            invariant
                k <= i < targets.len(),
                tv == target_views(targets@),
                tv.len() == targets.len(),
                t == tv.take(i + 1),
                model@ == tv[i as int].0,
                seen == (exists|j: int| 0 <= j < k && (#[trigger] t[j]).0 == model@),
            decreases i - k,
        {
            let other = chars_of(targets[k].0.as_str());
            if chars_eq(&other, &model) {
                assert(t[k as int].0 == model@);
                seen = true;
            }
            k = k + 1;
        }
        if seen {
            out.push(ProbeWarning::TwoProbesForOneModel { model: targets[i].0.clone() });
        }
        i = i + 1;
    }
    assert(tv.take(targets.len() as int) =~= tv);
    out
}


// ---------------------------------------------------------------------------
// Declared lineages at build time
// ---------------------------------------------------------------------------

/// The reason a primary with a blank lineage is refused.
pub open spec fn blank_primary_text(a: AgentName) -> Seq<char> {
    "lineage for primary "@ + agent_display(a) + " must be a non-empty declared label"@
}

/// The reason a fallback candidate with a blank lineage is refused.
pub open spec fn blank_candidate_text(i: nat) -> Seq<char> {
    "lineage for fallback pool candidate "@ + dec_text(i) + " must be a non-empty declared label"@
}

/// Whether the first `n` primaries all declare a non-empty lineage.
pub open spec fn primaries_named(p: Seq<(AgentName, Lineage)>, n: int) -> bool {
    forall|k: int| 0 <= k < n ==> #[trigger] p[k].1.name@.len() > 0
}

/// Whether the first `n` fallback candidates all declare a non-empty lineage.
pub open spec fn candidates_named(c: Seq<Lineage>, n: int) -> bool {
    forall|k: int| 0 <= k < n ==> #[trigger] c[k].name@.len() > 0
}

/// Whether the primary at `i` repeats the lineage of an earlier one.
pub open spec fn repeats_lineage(p: Seq<(AgentName, Lineage)>, i: int) -> bool {
    exists|k: int| 0 <= k < i && #[trigger] p[k].1.name@ == p[i].1.name@
}

/// The primaries, in order, whose lineage an earlier primary already declared.
pub open spec fn duplicate_lineage_seats(p: Seq<(AgentName, Lineage)>) -> Seq<AgentName>
    decreases p.len(),
{
    if p.len() == 0 {
        Seq::empty()
    } else {
        let rest = duplicate_lineage_seats(p.drop_last());
        if repeats_lineage(p, p.len() - 1) {
            rest.push(p.last().0)
        } else {
            rest
        }
    }
}

proof fn lemma_repeats_prefix(p: Seq<(AgentName, Lineage)>, n: int, i: int)
    requires
        0 <= i < n <= p.len(),
    ensures
        repeats_lineage(p.take(n), i) == repeats_lineage(p, i),
{
    if repeats_lineage(p, i) {
        let k = choose|k: int| 0 <= k < i && #[trigger] p[k].1.name@ == p[i].1.name@;
        assert(p.take(n)[k] == p[k]);
    }
    if repeats_lineage(p.take(n), i) {
        let k = choose|k: int| 0 <= k < i && #[trigger] p.take(n)[k].1.name@ == p.take(n)[i].1.name@;
        assert(p.take(n)[k] == p[k]);
    }
}

fn lineage_chars(l: &Lineage) -> (v: Vec<char>)
    ensures
        v@ == l.name@,
{
    chars_of(l.name.as_str())
}

/// Whether the primary at `i` repeats an earlier primary's lineage.
fn repeats_earlier_lineage(p: &[(AgentName, Lineage)], i: usize) -> (b: bool)
    requires
        i < p@.len(),
    ensures
        b == repeats_lineage(p@, i as int),
{
    let name = lineage_chars(&p[i].1);
    let mut k: usize = 0;
    while k < i
        invariant
            i < p@.len(),
            k <= i,
            name@ == p@[i as int].1.name@,
            forall|j: int| 0 <= j < k ==> #[trigger] p@[j].1.name@ != p@[i as int].1.name@,
        decreases i - k,
    {
        let other = lineage_chars(&p[k].1);
        if chars_eq(&other, &name) {
            assert(p@[k as int].1.name@ == p@[i as int].1.name@);
            return true;
        }
        k = k + 1;
    }
    false
}

/// The check that runs on the declared lineages before anything is built.
///
/// A blank lineage is malformed input and refuses the build: the first blank
/// primary (in the order given) is named, and otherwise the first blank
/// fallback candidate by its index. Two primaries sharing a lineage is not an
/// error; the seats whose lineage an earlier primary already declared are
/// returned, in order, for the caller to warn about.
pub fn check_lineages(primaries: &[(AgentName, Lineage)], candidates: &[Lineage]) -> (r: Result<
    Vec<AgentName>,
    MagiError,
>)
    requires
        candidates@.len() <= u64::MAX,
    ensures
        r is Ok <==> primaries_named(primaries@, primaries@.len() as int) && candidates_named(
            candidates@,
            candidates@.len() as int,
        ),
        r matches Ok(d) ==> d@ == duplicate_lineage_seats(primaries@),
        r matches Err(e) ==> e matches MagiError::InvalidInput { reason } && ((exists|i: int|
            0 <= i < primaries@.len() && primaries_named(primaries@, i)
                && primaries@[i].1.name@.len() == 0 && reason@ == blank_primary_text(
                primaries@[i].0,
            )) || (primaries_named(primaries@, primaries@.len() as int) && exists|j: int|
            0 <= j < candidates@.len() && candidates_named(candidates@, j)
                && candidates@[j].name@.len() == 0 && reason@ == blank_candidate_text(j as nat))),
{
    let mut i: usize = 0;
    while i < primaries.len()
        invariant
            i <= primaries@.len(),
            primaries_named(primaries@, i as int),
        decreases primaries@.len() - i,
    {
        if primaries[i].1.name.as_str().is_empty() {
            let mut out: Vec<char> = Vec::new();
            push_str(&mut out, "lineage for primary ");
            push_str(&mut out, primaries[i].0.display_name());
            push_str(&mut out, " must be a non-empty declared label");
            assert(out@ =~= blank_primary_text(primaries@[i as int].0));
            return Err(MagiError::InvalidInput { reason: string_of(&out) });
        }
        i = i + 1;
    }
    let mut j: usize = 0;
    while j < candidates.len()
        invariant
            j <= candidates@.len(),
            candidates@.len() <= u64::MAX,
            primaries_named(primaries@, primaries@.len() as int),
            candidates_named(candidates@, j as int),
        decreases candidates@.len() - j,
    {
        if candidates[j].name.as_str().is_empty() {
            let mut out: Vec<char> = Vec::new();
            push_str(&mut out, "lineage for fallback pool candidate ");
            push_decimal(&mut out, j as u64);
            push_str(&mut out, " must be a non-empty declared label");
            assert(out@ =~= blank_candidate_text(j as nat));
            return Err(MagiError::InvalidInput { reason: string_of(&out) });
        }
        j = j + 1;
    }
    let mut dups: Vec<AgentName> = Vec::new();
    let mut n: usize = 0;
    while n < primaries.len()
        invariant
            n <= primaries@.len(),
            dups@ == duplicate_lineage_seats(primaries@.take(n as int)),
        decreases primaries@.len() - n,
    {
        proof {
            let t = primaries@.take(n as int + 1);
            assert(t.drop_last() =~= primaries@.take(n as int));
            lemma_repeats_prefix(primaries@, n as int + 1, n as int);
        }
        if repeats_earlier_lineage(primaries, n) {
            dups.push(primaries[n].0);
        }
        n = n + 1;
    }
    assert(primaries@.take(primaries@.len() as int) =~= primaries@);
    Ok(dups)
}


// ---------------------------------------------------------------------------
// One-shot warnings
// ---------------------------------------------------------------------------

/// How many one-shot warnings there are; each owns one bit of a `u32` mask.
pub const WARN_ONCE_COUNT: u32 = 2;

/// A configuration warning that is said at most once per orchestrator.
#[derive(Debug, Clone, Copy, PartialEq, Eq, Structural)]
pub enum WarnOnce {
    /// The strict context guard is on with no measured window, so rotation
    /// cannot fire.
    InertGuard { candidates: usize },
    /// A probe declares a different model than the provider it was registered beside.
    ProbeDeclaration,
}

/// The bit a warning owns in the mask.
pub open spec fn warn_bit(w: WarnOnce) -> u32 {
    match w {
        WarnOnce::InertGuard { .. } => 0,
        WarnOnce::ProbeDeclaration => 1,
    }
}

impl WarnOnce {
    /// This warning's bit in the mask: distinct per warning, below
    /// [`WARN_ONCE_COUNT`].
    pub fn bit(&self) -> (b: u32)
        ensures
            b == warn_bit(*self),
            b < WARN_ONCE_COUNT,
    {
        match self {
            WarnOnce::InertGuard { .. } => 0,
            WarnOnce::ProbeDeclaration => 1,
        }
    }
}

/// Whether a warning is to be said, given the mask as it was before this
/// warning's bit was set in it: exactly when its bit was still clear.
pub fn should_emit(prior_mask: u32, which: &WarnOnce) -> (b: bool)
    ensures
        b == (prior_mask & (1u32 << warn_bit(*which)) == 0),
{
    let bit = which.bit();
    prior_mask & (1u32 << bit) == 0
}

/// A warning is said at most once: after its bit is set, it is never said
/// again, and setting one warning's bit never silences another.
pub proof fn law_each_warning_is_said_at_most_once(mask: u32, w: WarnOnce, other: WarnOnce)
    ensures
        (mask | (1u32 << warn_bit(w))) & (1u32 << warn_bit(w)) != 0,
        warn_bit(w) != warn_bit(other) ==> ((mask | (1u32 << warn_bit(w))) & (1u32 << warn_bit(
            other,
        )) == 0 <==> mask & (1u32 << warn_bit(other)) == 0),
{
    let b = warn_bit(w);
    let o = warn_bit(other);
    assert(b < 2 && o < 2);
    assert((mask | (1u32 << b)) & (1u32 << b) != 0) by (bit_vector)
        requires
            b < 2,
    ;
    if b != o {
        assert((mask | (1u32 << b)) & (1u32 << o) == 0 <==> mask & (1u32 << o) == 0)
            by (bit_vector)
            requires
                b < 2,
                o < 2,
                b != o,
        ;
    }
}

// ---------------------------------------------------------------------------
// Seat registrations
// ---------------------------------------------------------------------------

/// What is registered for one seat: its primary provider, its declared
/// lineage and the probe that measures its model.
pub struct SeatEntry<P, Q> {
    pub provider: Option<P>,
    pub lineage: Option<Lineage>,
    pub probe: Option<Q>,
}

/// The per-seat registrations a builder accumulates. Every write goes through
/// `register_seat`, so a registration that declares no probe cannot inherit
/// the probe of the provider it replaces.
pub struct SeatRegistry<P, Q> {
    balthasar: SeatEntry<P, Q>,
    caspar: SeatEntry<P, Q>,
    melchior: SeatEntry<P, Q>,
}

impl<P, Q> SeatRegistry<P, Q> {
    /// What is registered for `agent`.
    pub closed spec fn entry(&self, agent: AgentName) -> SeatEntry<P, Q> {
        match agent {
            AgentName::Balthasar => self.balthasar,
            AgentName::Caspar => self.caspar,
            AgentName::Melchior => self.melchior,
        }
    }

    /// Nothing registered.
    pub fn new() -> (r: Self)
        ensures
            forall|a: AgentName|
                #![trigger r.entry(a)]
                r.entry(a).provider is None && r.entry(a).lineage is None && r.entry(a).probe is None,
    {
        SeatRegistry {
            balthasar: SeatEntry { provider: None, lineage: None, probe: None },
            caspar: SeatEntry { provider: None, lineage: None, probe: None },
            melchior: SeatEntry { provider: None, lineage: None, probe: None },
        }
    }

    /// The one place the seat registrations are written: the provider is
    /// replaced; a lineage of `None` leaves the declared lineage alone; a
    /// probe of `None` means the seat now has none. Other seats are untouched.
    pub fn register_seat(&mut self, agent: AgentName, provider: P, lineage: Option<Lineage>, probe: Option<Q>)
        ensures
            final(self).entry(agent).provider == Some(provider),
            final(self).entry(agent).lineage == match lineage {
                Some(l) => Some(l),
                None => old(self).entry(agent).lineage,
            },
            final(self).entry(agent).probe == probe,
            forall|a: AgentName| a != agent ==> #[trigger] final(self).entry(a) == old(self).entry(a),
    {
        let e = match agent {
            AgentName::Balthasar => &mut self.balthasar,
            AgentName::Caspar => &mut self.caspar,
            AgentName::Melchior => &mut self.melchior,
        };
        e.provider = Some(provider);
        match lineage {
            Some(l) => e.lineage = Some(l),
            None => {},
        }
        e.probe = probe;
    }

    /// Registers a primary provider and its declared lineage; a plain
    /// primary declares no probe, so an earlier one is dropped.
    pub fn with_agent(self, agent: AgentName, provider: P, lineage: Lineage) -> (r: Self)
        ensures
            r.entry(agent).provider == Some(provider),
            r.entry(agent).lineage == Some(lineage),
            r.entry(agent).probe is None,
            forall|a: AgentName| a != agent ==> #[trigger] r.entry(a) == self.entry(a),
    {
        let mut r = self;
        r.register_seat(agent, provider, Some(lineage), None);
        r
    }

    /// Registers a primary provider, its lineage, and the probe that measures it.
    pub fn with_agent_and_probe(self, agent: AgentName, provider: P, lineage: Lineage, probe: Q) -> (r:
        Self)
        ensures
            r.entry(agent).provider == Some(provider),
            r.entry(agent).lineage == Some(lineage),
            r.entry(agent).probe == Some(probe),
            forall|a: AgentName| a != agent ==> #[trigger] r.entry(a) == self.entry(a),
    {
        let mut r = self;
        r.register_seat(agent, provider, Some(lineage), Some(probe));
        r
    }

    /// Replaces only the provider of a seat: the declared lineage stays, and
    /// a probe declared for the previous provider is cleared.
    pub fn with_provider(self, agent: AgentName, provider: P) -> (r: Self)
        ensures
            r.entry(agent).provider == Some(provider),
            r.entry(agent).lineage == self.entry(agent).lineage,
            r.entry(agent).probe is None,
            forall|a: AgentName| a != agent ==> #[trigger] r.entry(a) == self.entry(a),
    {
        let mut r = self;
        r.register_seat(agent, provider, None, None);
        r
    }

    /// The provider registered for `agent`, if any.
    pub fn provider_of(&self, agent: AgentName) -> (r: Option<&P>)
        ensures
            r == match self.entry(agent).provider {
                Some(p) => Some(&p),
                None => None::<&P>,
            },
    {
        let e = match agent {
            AgentName::Balthasar => &self.balthasar,
            AgentName::Caspar => &self.caspar,
            AgentName::Melchior => &self.melchior,
        };
        match &e.provider {
            Some(p) => Some(p),
            None => None,
        }
    }

    /// The lineage declared for `agent`, if any.
    pub fn lineage_of(&self, agent: AgentName) -> (r: Option<&Lineage>)
        ensures
            r == match self.entry(agent).lineage {
                Some(l) => Some(&l),
                None => None::<&Lineage>,
            },
    {
        let e = match agent {
            AgentName::Balthasar => &self.balthasar,
            AgentName::Caspar => &self.caspar,
            AgentName::Melchior => &self.melchior,
        };
        match &e.lineage {
            Some(l) => Some(l),
            None => None,
        }
    }

    /// The probe declared for `agent`, if any.
    pub fn probe_of(&self, agent: AgentName) -> (r: Option<&Q>)
        ensures
            r == match self.entry(agent).probe {
                Some(q) => Some(&q),
                None => None::<&Q>,
            },
    {
        let e = match agent {
            AgentName::Balthasar => &self.balthasar,
            AgentName::Caspar => &self.caspar,
            AgentName::Melchior => &self.melchior,
        };
        match &e.probe {
            Some(q) => Some(q),
            None => None,
        }
    }
}


// ---------------------------------------------------------------------------
// Probe targets
// ---------------------------------------------------------------------------

/// The model recorded for `agent`: the one in the last pair naming it.
pub open spec fn model_for(models: Seq<(AgentName, Seq<char>)>, agent: AgentName) -> Option<
    Seq<char>,
>
    decreases models.len(),
{
    if models.len() == 0 {
        None
    } else if models.last().0 == agent {
        Some(models.last().1)
    } else {
        model_for(models.drop_last(), agent)
    }
}

/// Agent models as plain values.
pub open spec fn models_view(models: Seq<(AgentName, String)>) -> Seq<(AgentName, Seq<char>)> {
    models.map_values(|p: (AgentName, String)| (p.0, p.1@))
}

/// The probe target a seat contributes: its probe paired with its agent's
/// model, when it declares a probe and the agent has a model.
pub open spec fn primary_target<P, Q>(
    seats: SeatRegistry<P, Q>,
    models: Seq<(AgentName, Seq<char>)>,
    agent: AgentName,
) -> Seq<(Seq<char>, Q)> {
    match (seats.entry(agent).probe, model_for(models, agent)) {
        (Some(q), Some(m)) => seq![(m, q)],
        _ => Seq::empty(),
    }
}

/// The probe targets the rotation pool contributes: each candidate that
/// declared a probe, paired with the candidate's model, in pool order.
pub open spec fn pool_targets<Q>(pool: Seq<(Seq<char>, Option<Q>)>) -> Seq<(Seq<char>, Q)>
    decreases pool.len(),
{
    if pool.len() == 0 {
        Seq::empty()
    } else {
        let prev = pool_targets(pool.drop_last());
        match pool.last().1 {
            Some(q) => prev.push((pool.last().0, q)),
            None => prev,
        }
    }
}

/// Pool candidates as plain values.
pub open spec fn pool_view<Q>(pool: Seq<(String, Option<Q>)>) -> Seq<(Seq<char>, Option<Q>)> {
    pool.map_values(|c: (String, Option<Q>)| (c.0@, c.1))
}

/// Every preflight probe target: the probing seats in agent order, then the
/// probing pool candidates in pool order.
pub open spec fn probe_targets_spec<P, Q>(
    seats: SeatRegistry<P, Q>,
    models: Seq<(AgentName, Seq<char>)>,
    pool: Seq<(Seq<char>, Option<Q>)>,
) -> Seq<(Seq<char>, Q)> {
    primary_target(seats, models, AgentName::Balthasar) + primary_target(
        seats,
        models,
        AgentName::Caspar,
    ) + primary_target(seats, models, AgentName::Melchior) + pool_targets(pool)
}

fn model_lookup(models: &[(AgentName, String)], agent: AgentName) -> (r: Option<&String>)
    ensures
        match r {
            Some(m) => model_for(models_view(models@), agent) == Some(m@),
            None => model_for(models_view(models@), agent) is None,
        },
{
    let ghost mv = models_view(models@);
    let mut found: Option<&String> = None;
    let mut i: usize = 0;
    assert(mv.take(0) =~= Seq::<(AgentName, Seq<char>)>::empty());
    while i < models.len()
        invariant
            i <= models.len(),
            mv == models_view(models@),
            match found {
                Some(m) => model_for(mv.take(i as int), agent) == Some(m@),
                None => model_for(mv.take(i as int), agent) is None,
            },
        decreases models.len() - i,
    {
        assert(mv.take(i + 1).drop_last() =~= mv.take(i as int));
        if models[i].0 == agent {
            found = Some(&models[i].1);
        }
        i = i + 1;
    }
    assert(mv.take(models.len() as int) =~= mv);
    found
}

fn push_primary_target<'a, P, Q>(
    out: &mut Vec<(String, &'a Q)>,
    seats: &'a SeatRegistry<P, Q>,
    models: &[(AgentName, String)],
    agent: AgentName,
)
    ensures
        final(out)@.map_values(|t: (String, &Q)| (t.0@, *t.1)) == old(out)@.map_values(
            |t: (String, &Q)| (t.0@, *t.1),
        ) + primary_target(*seats, models_view(models@), agent),
{
    let ghost before = out@;
    match (seats.probe_of(agent), model_lookup(models, agent)) {
        (Some(q), Some(m)) => {
            out.push((m.clone(), q));
        },
        _ => {},
    }
    assert(out@.map_values(|t: (String, &Q)| (t.0@, *t.1)) =~= before.map_values(
        |t: (String, &Q)| (t.0@, *t.1),
    ) + primary_target(*seats, models_view(models@), agent));
}

/// Collects the preflight probe targets: each seat that declared a probe,
/// paired with its agent's model (a seat whose agent has no model gives
/// none), then each pool candidate that declared a probe, paired with the
/// candidate's model. Candidates and seats without a probe contribute nothing.
pub fn collect_probe_targets<'a, P, Q>(
    models: &[(AgentName, String)],
    seats: &'a SeatRegistry<P, Q>,
    pool: &'a [(String, Option<Q>)],
) -> (r: Vec<(String, &'a Q)>)
    ensures
        r@.map_values(|t: (String, &Q)| (t.0@, *t.1)) == probe_targets_spec(
            *seats,
            models_view(models@),
            pool_view(pool@),
        ),
{
    let mut out: Vec<(String, &'a Q)> = Vec::new();
    assert(out@.map_values(|t: (String, &Q)| (t.0@, *t.1)) =~= Seq::<(Seq<char>, Q)>::empty());
    push_primary_target(&mut out, seats, models, AgentName::Balthasar);
    push_primary_target(&mut out, seats, models, AgentName::Caspar);
    push_primary_target(&mut out, seats, models, AgentName::Melchior);
    let ghost primaries = out@.map_values(|t: (String, &Q)| (t.0@, *t.1));
    let ghost pv = pool_view(pool@);
    let mut i: usize = 0;
    assert(pv.take(0) =~= Seq::<(Seq<char>, Option<Q>)>::empty());
    while i < pool.len()
        invariant
            i <= pool.len(),
            pv == pool_view(pool@),
            out@.map_values(|t: (String, &Q)| (t.0@, *t.1)) == primaries + pool_targets(
                pv.take(i as int),
            ),
        decreases pool.len() - i,
    {
        let ghost before = out@;
        assert(pv.take(i + 1).drop_last() =~= pv.take(i as int));
        assert(pv.take(i + 1).last() == (pool@[i as int].0@, pool@[i as int].1));
        let ghost prev = pool_targets(pv.take(i as int));
        match &pool[i].1 {
            Some(q) => {
                let model = pool[i].0.clone();
                out.push((model, q));
                assert(pool_targets(pv.take(i + 1)) == prev.push((pool@[i as int].0@, *q)));
                assert(out@.map_values(|t: (String, &Q)| (t.0@, *t.1)) =~= before.map_values(
                    |t: (String, &Q)| (t.0@, *t.1),
                ).push((pool@[i as int].0@, *q)));
                assert((primaries + prev).push((pool@[i as int].0@, *q)) =~= primaries + prev.push(
                    (pool@[i as int].0@, *q),
                ));
            },
            None => {
                assert(pool_targets(pv.take(i + 1)) == prev);
                assert(out@ == before);
            },
        }
        assert(out@.map_values(|t: (String, &Q)| (t.0@, *t.1)) =~= primaries + pool_targets(
            pv.take(i + 1),
        ));
        i = i + 1;
    }
    assert(pv.take(pool.len() as int) =~= pv);
    out
}

} // verus!

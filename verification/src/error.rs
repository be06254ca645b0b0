//! Error vocabulary: why a provider failed, why retrying stopped, and the
//! crate-wide error, each with the message it renders.

use std::time::{Duration, Instant};
use vstd::prelude::*;
use crate::durations::{
    duration_debug_text, duration_secs, duration_subsec_nanos, push_duration_debug,
};
use crate::schema::{AgentName, Mode, agent_display, mode_debug};
use crate::telemetry::{
    BudgetBearing, CompletionTelemetry, FinishReason, budget_bearing_of, debug_str, debug_str_text,
    finish_opt_debug, push_finish_opt_debug,
};
use crate::text::{
    char_utf8_len, chars_of, dec_text, fitting_prefix, fitting_prefix_len, int_text, push_chars,
    push_decimal, push_signed, push_str, string_of, trim, trim_spec, utf8_len, utf8_len_of,
};

verus! {

broadcast use vstd::std_specs::vec::group_vec_axioms;

#[verifier::external_type_specification]
#[verifier::external_body]
pub struct ExInstant(Instant);

#[verifier::external_type_specification]
#[verifier::external_body]
pub struct ExIoError(std::io::Error);


/// The reason retrying was deliberately stopped.
#[derive(Debug, Clone, PartialEq, Eq)]
#[non_exhaustive]
pub enum AbandonReason {
    /// The server asked to wait longer than we accept.
    RetryAfterTooLong {
        /// What the server requested.
        requested: Duration,
        /// Our limit.
        cap: Duration,
    },
    /// A `Retry-After` was present but could not be interpreted.
    RetryAfterUnintelligible {
        /// The raw value received.
        raw: String,
    },
    /// The operation budget ran out before the retry count did.
    OperationBudgetExhausted {
        /// Time elapsed since the first attempt.
        elapsed: Duration,
        /// The configured budget.
        budget: Duration,
    },
}

/// Which part of a provider's response contract was not met.
#[derive(Debug, Clone, Copy, PartialEq, Eq, Structural)]
#[non_exhaustive]
pub enum ResponseContractCause {
    /// The body could not be read as the format the provider speaks.
    Unreadable,
    /// The body parsed, but carried no message for this crate to read.
    NoMessage,
    /// The endpoint answered with a redirect chain this crate would not follow.
    RedirectRefused,
}

/// How an external provider's failure should be treated.
#[derive(Debug, Clone, Copy, PartialEq, Eq, Structural)]
#[non_exhaustive]
pub enum ExternalErrorKind {
    /// Connection-level failure reaching the backend.
    Network,
    /// The backend did not answer in time.
    Timeout,
    /// Rejected credentials or insufficient permissions.
    Auth,
    /// Rate limited.
    RateLimit,
    /// The backend failed on its own side (the 5xx shape).
    ServerError,
    /// Anything else.
    Other,
}

/// Errors originating from LLM provider implementations.
#[derive(Debug, Clone)]
#[non_exhaustive]
pub enum ProviderError {
    /// HTTP response with a non-success status code.
    Http {
        status: u16,
        body: String,
        /// Raw values of the `Retry-After` header, in order of arrival.
        retry_after_raw: Vec<String>,
        /// When the response headers were received.
        received_at: Option<Instant>,
    },
    /// Network-level failure (DNS, connection refused, etc.).
    Network { message: String },
    /// Provider did not respond within the allowed time.
    Timeout { message: String },
    /// Authentication or authorization failure.
    Auth { message: String },
    /// CLI subprocess provider failed.
    Process { exit_code: Option<i32>, stderr: String },
    /// Detected nested session.
    NestedSession,
    /// Response body exceeded the size this crate is willing to buffer.
    ResponseTooLarge { limit: usize },
    /// Retrying stopped by its own decision.
    RetryAbandoned { reason: AbandonReason, attempts: u32 },
    /// Failure reported by a provider implemented outside this crate.
    External { message: String, kind: ExternalErrorKind },
    /// The endpoint answered, but what it sent does not satisfy the response contract.
    ResponseContract { reason: ResponseContractCause, detail: String },
    /// The model produced no usable content.
    EmptyCompletion { telemetry: CompletionTelemetry, cap: u32 },
    /// The backend accepted the request and generated nothing at all.
    NoGeneration { done_reason: Option<FinishReason> },
}

/// A lineage: the family of models a provider serves, named by a declared
/// label (the rotation's diversity key).
#[derive(Debug, Clone, PartialEq, Eq)]
pub struct Lineage {
    pub name: String,
}

impl Lineage {
    /// A lineage named by `name` without its surrounding white space.
    pub fn new(name: &str) -> (l: Lineage)
        ensures
            l.name@ == trim_spec(name@),
    {
        Lineage { name: string_of(&trim(&chars_of(name))) }
    }

    pub fn as_str(&self) -> (s: &str)
        ensures
            s@ == self.name@,
    {
        self.name.as_str()
    }
}

/// Unified error type of the crate.
#[derive(Debug)]
#[non_exhaustive]
pub enum MagiError {
    /// Invalid input or schema violation.
    Validation(String),
    /// Wraps a provider-specific error.
    Provider(ProviderError),
    /// Fewer agents completed successfully than the minimum threshold.
    InsufficientAgents { succeeded: usize, required: usize },
    /// JSON deserialization failure.
    Deserialization(String),
    /// Content exceeds the configured maximum input size.
    InputTooLarge { size: usize, max: usize },
    /// Input rejected by an invariant check.
    InvalidInput { reason: String },
    /// Input did not pass the caller-supplied complexity gate.
    SkippedByComplexityGate { reason: String },
    /// Filesystem I/O error.
    Io(std::io::Error),
    /// Two distinct lineages failed at the connection level: no endpoint reachable.
    EndpointDown { lineages: Vec<Lineage> },
    /// A defect in this crate, detected at run time.
    CrateDefect {
        /// What was measured, with no causal claim attached.
        observation: String,
        /// The known cause, offered as a hypothesis.
        hypothesis: &'static str,
        /// The seat that hit it.
        agent: AgentName,
        /// The model in force when it happened.
        model: String,
        /// The seats already joined when the abort was reached.
        joined_before_abort: Vec<AgentName>,
    },
    /// A resolvable system prompt violates the verdict-marker contract.
    PromptContract { agent: Option<AgentName>, mode: Option<Mode>, reason: String },
}

// ---------------------------------------------------------------------------
// Bounded text
// ---------------------------------------------------------------------------

/// Marker appended when text is cut, so a truncated message never reads as complete.
pub const TRUNCATION_MARKER: &'static str = " \u{2026} (truncated)";

/// The phrase that marks the empty-completion branch where the cap is the fix.
pub const REMEDY_PRESCRIBES: &'static str = "configurable via";

/// The phrase that marks the branch where the backend named a reason that is not the budget.
pub const REMEDY_RULED_OUT: &'static str = "does not address";

/// The phrase that marks the branch where neither direction is supportable.
pub const REMEDY_UNKNOWN: &'static str = "cannot be told";

/// Upper bound, in bytes, for the text an external provider may attach to a failure.
pub const MAX_EXTERNAL_MESSAGE_BYTES: usize = 400;

/// Upper bound on a response-contract `detail`, in characters.
pub const MAX_CONTRACT_DETAIL_CHARS: usize = 256;

/// The marker's characters.
pub open spec fn marker_text() -> Seq<char> {
    TRUNCATION_MARKER@
}

proof fn lemma_marker_shape()
    ensures
        utf8_len(marker_text()) == 16,
        marker_text().len() == 14,
{
    reveal_strlit(" \u{2026} (truncated)");
    reveal_with_fuel(utf8_len, 15);
    let m = marker_text();
    assert(m.drop_last() =~= m.take(13));
}

/// `text` cut to fit, followed by the marker, the whole within `cap` bytes: the
/// text keeps the longest prefix that fits `cap - marker`; a cap smaller than
/// the marker keeps only the part of the marker that fits.
pub open spec fn mark_within_cap_text(text: Seq<char>, cap: nat) -> Seq<char> {
    if cap >= 16 {
        text.take(fitting_prefix_len(text, (cap - 16) as nat) as int) + marker_text()
    } else {
        marker_text().take(fitting_prefix_len(marker_text(), cap) as int)
    }
}

/// Cuts `text` on a character boundary so that it and the truncation marker
/// fit in `cap` bytes, and appends the marker. Always marks, even when nothing
/// had to be cut; never panics.
pub fn mark_within_cap(text: &str, cap: usize) -> (r: String)
    ensures
        r@ == mark_within_cap_text(text@, cap as nat),
        utf8_len(r@) <= cap,
{
    let marker = chars_of(TRUNCATION_MARKER);
    proof {
        lemma_marker_shape();
    }
    if cap >= 16 {
        let t = chars_of(text);
        let mut out = fitting_prefix(&t, (cap - 16) as u128);
        let ghost head = out@;
        push_chars(&mut out, &marker);
        proof {
            lemma_utf8_len_concat(head, marker@);
        }
        string_of(&out)
    } else {
        let out = fitting_prefix(&marker, cap as u128);
        string_of(&out)
    }
}

/// UTF-8 lengths add up over concatenation.
pub proof fn lemma_utf8_len_concat(a: Seq<char>, b: Seq<char>)
    ensures
        utf8_len(a + b) == utf8_len(a) + utf8_len(b),
    decreases b.len(),
{
    if b.len() > 0 {
        lemma_utf8_len_concat(a, b.drop_last());
        assert((a + b).drop_last() =~= a + b.drop_last());
    } else {
        assert(a + b =~= a);
    }
}

/// The message an external failure keeps: whole when it fits the cap, else
/// cut and marked within it.
pub open spec fn external_message_text(raw: Seq<char>) -> Seq<char> {
    if utf8_len(raw) <= 400 {
        raw
    } else {
        mark_within_cap_text(raw, 400)
    }
}

/// The detail a response-contract failure keeps: its first 256 characters.
pub open spec fn contract_detail_text(detail: Seq<char>) -> Seq<char> {
    if detail.len() > 256 {
        detail.take(256)
    } else {
        detail
    }
}

impl ProviderError {
    /// Builds a failure from a provider implemented outside this crate. The
    /// message is kept whole up to 400 bytes; a longer one is cut on a
    /// character boundary and marked, within the same bound. Never panics.
    pub fn external(message: &str, kind: ExternalErrorKind) -> (r: ProviderError)
        ensures
            r matches ProviderError::External { message: m, kind: k } && k == kind && m@
                == external_message_text(message@) && utf8_len(m@) <= 400,
    {
        let raw = chars_of(message);
        if utf8_len_of(&raw) <= MAX_EXTERNAL_MESSAGE_BYTES as u128 {
            ProviderError::External { message: string_of(&raw), kind }
        } else {
            ProviderError::External { message: mark_within_cap(message, MAX_EXTERNAL_MESSAGE_BYTES), kind }
        }
    }

    /// Builds a response-contract failure with its `detail` bounded to 256
    /// characters (cut on a character boundary, never padded).
    pub fn response_contract(reason: ResponseContractCause, detail: &str) -> (r: ProviderError)
        ensures
            r matches ProviderError::ResponseContract { reason: c, detail: d } && c == reason && d@
                == contract_detail_text(detail@),
    {
        let v = chars_of(detail);
        if v.len() > MAX_CONTRACT_DETAIL_CHARS {
            let mut cut: Vec<char> = Vec::new();
            let mut i: usize = 0;
            while i < MAX_CONTRACT_DETAIL_CHARS
                invariant
                    i <= MAX_CONTRACT_DETAIL_CHARS < v.len(),
                    cut@ =~= v@.take(i as int),
                decreases MAX_CONTRACT_DETAIL_CHARS - i,
            {
                cut.push(v[i]);
                i = i + 1;
            }
            ProviderError::ResponseContract { reason, detail: string_of(&cut) }
        } else {
            ProviderError::ResponseContract { reason, detail: string_of(&v) }
        }
    }
}

// ---------------------------------------------------------------------------
// Rendered messages
// ---------------------------------------------------------------------------

/// `" (detail)"`, or nothing for an empty detail.
pub open spec fn suffix_text(detail: Seq<char>) -> Seq<char> {
    if detail.len() == 0 {
        Seq::<char>::empty()
    } else {
        " ("@ + detail + ")"@
    }
}

/// Renders an optional diagnostic tail, so an empty one adds no punctuation.
pub fn suffix(detail: &str) -> (r: String)
    ensures
        r@ == suffix_text(detail@),
{
    let d = chars_of(detail);
    let mut out: Vec<char> = Vec::new();
    if d.len() > 0 {
        push_str(&mut out, " (");
        push_chars(&mut out, &d);
        push_str(&mut out, ")");
    }
    assert(out@ =~= suffix_text(detail@));
    string_of(&out)
}

/// The sentence tail of an empty-completion message: the remedy is prescribed
/// only where the budget can explain the termination.
pub open spec fn remedy_text(bearing: BudgetBearing, prompt_tokens: Option<u32>) -> Seq<char> {
    match bearing {
        BudgetBearing::MayExplain => {
            let measured = match prompt_tokens {
                Some(n) => "The prompt measured "@ + dec_text(n as nat) + " tokens: if that is"@,
                None => "The prompt was not measured; if it is"@,
            };
            ", configurable via `CompletionConfig::max_tokens`. "@ + measured
                + " already near the model's context window, it is the input that has to shrink and raising the cap will not help -- both causes arrive under the same termination and this crate does not guess between them."@
        },
        BudgetBearing::RuledOut =>
            ", but the termination the backend reported is not the budget running out, so raising `CompletionConfig::max_tokens` does not address this."@,
        BudgetBearing::Unknown =>
            ", and the termination the backend reported is not one this crate interprets, so whether the budget was reached cannot be told from it."@,
    }
}

fn push_remedy(out: &mut Vec<char>, bearing: BudgetBearing, prompt_tokens: Option<u32>)
    ensures
        final(out)@ == old(out)@ + remedy_text(bearing, prompt_tokens),
{
    match bearing {
        BudgetBearing::MayExplain => {
            push_str(out, ", configurable via `CompletionConfig::max_tokens`. ");
            match prompt_tokens {
                Some(n) => {
                    push_str(out, "The prompt measured ");
                    push_decimal(out, n as u64);
                    push_str(out, " tokens: if that is");
                },
                None => push_str(out, "The prompt was not measured; if it is"),
            }
            push_str(
                out,
                " already near the model's context window, it is the input that has to shrink and raising the cap will not help -- both causes arrive under the same termination and this crate does not guess between them.",
            );
        },
        BudgetBearing::RuledOut => push_str(
            out,
            ", but the termination the backend reported is not the budget running out, so raising `CompletionConfig::max_tokens` does not address this.",
        ),
        BudgetBearing::Unknown => push_str(
            out,
            ", and the termination the backend reported is not one this crate interprets, so whether the budget was reached cannot be told from it.",
        ),
    }
    assert(final(out)@ =~= old(out)@ + remedy_text(bearing, prompt_tokens));
}

/// The half of the empty-completion message that depends on what stopped the model.
pub fn empty_completion_remedy(bearing: BudgetBearing, prompt_tokens: Option<u32>) -> (r: String)
    ensures
        r@ == remedy_text(bearing, prompt_tokens),
{
    let mut out: Vec<char> = Vec::new();
    push_remedy(&mut out, bearing, prompt_tokens);
    assert(out@ =~= remedy_text(bearing, prompt_tokens));
    string_of(&out)
}

/// What `Display` says for each contract cause.
pub open spec fn contract_cause_text(c: ResponseContractCause) -> Seq<char> {
    match c {
        ResponseContractCause::Unreadable => "the response body could not be read"@,
        ResponseContractCause::NoMessage => "the response carried no message"@,
        ResponseContractCause::RedirectRefused =>
            "the response was a redirect chain this crate will not follow"@,
    }
}

impl ResponseContractCause {
    /// The sentence this cause renders as.
    pub fn description(&self) -> (r: &'static str)
        ensures
            r@ == contract_cause_text(*self),
    {
        match self {
            ResponseContractCause::Unreadable => "the response body could not be read",
            ResponseContractCause::NoMessage => "the response carried no message",
            ResponseContractCause::RedirectRefused =>
                "the response was a redirect chain this crate will not follow",
        }
    }
}

/// The variant name of an external error kind.
pub open spec fn external_kind_debug(k: ExternalErrorKind) -> Seq<char> {
    match k {
        ExternalErrorKind::Network => "Network"@,
        ExternalErrorKind::Timeout => "Timeout"@,
        ExternalErrorKind::Auth => "Auth"@,
        ExternalErrorKind::RateLimit => "RateLimit"@,
        ExternalErrorKind::ServerError => "ServerError"@,
        ExternalErrorKind::Other => "Other"@,
    }
}

impl ExternalErrorKind {
    /// The variant name, as `{:?}` prints it.
    pub fn debug_name(&self) -> (r: &'static str)
        ensures
            r@ == external_kind_debug(*self),
    {
        match self {
            ExternalErrorKind::Network => "Network",
            ExternalErrorKind::Timeout => "Timeout",
            ExternalErrorKind::Auth => "Auth",
            ExternalErrorKind::RateLimit => "RateLimit",
            ExternalErrorKind::ServerError => "ServerError",
            ExternalErrorKind::Other => "Other",
        }
    }
}

/// The `Debug` text of a span.
pub open spec fn dur_text(d: Duration) -> Seq<char> {
    duration_debug_text(duration_secs(d) as nat, duration_subsec_nanos(d) as nat)
}

/// The `Debug` text of an abandon reason.
pub open spec fn abandon_debug(r: AbandonReason) -> Seq<char> {
    match r {
        AbandonReason::RetryAfterTooLong { requested, cap } => "RetryAfterTooLong { requested: "@
            + dur_text(requested) + ", cap: "@ + dur_text(cap) + " }"@,
        AbandonReason::RetryAfterUnintelligible { raw } => "RetryAfterUnintelligible { raw: "@
            + debug_str_text(raw@) + " }"@,
        AbandonReason::OperationBudgetExhausted { elapsed, budget } =>
            "OperationBudgetExhausted { elapsed: "@ + dur_text(elapsed) + ", budget: "@ + dur_text(
            budget,
        ) + " }"@,
    }
}

fn push_abandon_debug(out: &mut Vec<char>, r: &AbandonReason)
    ensures
        final(out)@ == old(out)@ + abandon_debug(*r),
{
    match r {
        AbandonReason::RetryAfterTooLong { requested, cap } => {
            push_str(out, "RetryAfterTooLong { requested: ");
            push_duration_debug(out, *requested);
            push_str(out, ", cap: ");
            push_duration_debug(out, *cap);
            push_str(out, " }");
        },
        AbandonReason::RetryAfterUnintelligible { raw } => {
            push_str(out, "RetryAfterUnintelligible { raw: ");
            let d = debug_str(raw.as_str());
            push_chars(out, &chars_of(d.as_str()));
            push_str(out, " }");
        },
        AbandonReason::OperationBudgetExhausted { elapsed, budget } => {
            push_str(out, "OperationBudgetExhausted { elapsed: ");
            push_duration_debug(out, *elapsed);
            push_str(out, ", budget: ");
            push_duration_debug(out, *budget);
            push_str(out, " }");
        },
    }
    assert(final(out)@ =~= old(out)@ + abandon_debug(*r));
}

/// The `Debug` text of an optional exit code.
pub open spec fn exit_code_debug(c: Option<i32>) -> Seq<char> {
    match c {
        None => "None"@,
        Some(v) => "Some("@ + int_text(v as int) + ")"@,
    }
}

/// What a provider error says when displayed.
pub open spec fn provider_error_text(e: ProviderError) -> Seq<char> {
    match e {
        ProviderError::Http { status, body, .. } => "http error "@ + dec_text(status as nat) + ": "@
            + body@,
        ProviderError::Network { message } => "network error: "@ + message@,
        ProviderError::Timeout { message } => "timeout: "@ + message@,
        ProviderError::Auth { message } => "auth error: "@ + message@,
        ProviderError::Process { exit_code, stderr } => "process error (exit_code="@
            + exit_code_debug(exit_code) + "): "@ + stderr@,
        ProviderError::NestedSession =>
            "nested session detected: cannot launch CLI provider from within an existing session"@,
        ProviderError::ResponseTooLarge { limit } => "response body exceeded "@ + dec_text(
            limit as nat,
        ) + " bytes"@,
        ProviderError::RetryAbandoned { reason, attempts } => "retry abandoned after "@ + dec_text(
            attempts as nat,
        ) + " attempt(s): "@ + abandon_debug(reason),
        ProviderError::External { message, kind } => "external provider error ("@
            + external_kind_debug(kind) + "): "@ + message@,
        ProviderError::ResponseContract { reason, detail } => "response contract violated: "@
            + contract_cause_text(reason) + suffix_text(detail@),
        ProviderError::EmptyCompletion { telemetry, cap } =>
            "empty completion: the model returned no content (termination: "@ + finish_opt_debug(
            telemetry.finish,
        ) + "). The output budget in force was "@ + dec_text(cap as nat) + " tokens"@ + remedy_text(
            budget_bearing_of(telemetry.finish),
            telemetry.prompt_tokens,
        ),
        ProviderError::NoGeneration { done_reason } =>
            "no generation - token counters absent (termination: "@ + finish_opt_debug(done_reason)
                + "); the known cause of this is a request without `messages`, which points at a defect in magi-core"@,
    }
}

fn push_provider_error(out: &mut Vec<char>, e: &ProviderError)
    ensures
        final(out)@ == old(out)@ + provider_error_text(*e),
{
    match e {
        ProviderError::Http { status, body, .. } => {
            push_str(out, "http error ");
            push_decimal(out, *status as u64);
            push_str(out, ": ");
            push_str(out, body.as_str());
        },
        ProviderError::Network { message } => {
            push_str(out, "network error: ");
            push_str(out, message.as_str());
        },
        ProviderError::Timeout { message } => {
            push_str(out, "timeout: ");
            push_str(out, message.as_str());
        },
        ProviderError::Auth { message } => {
            push_str(out, "auth error: ");
            push_str(out, message.as_str());
        },
        ProviderError::Process { exit_code, stderr } => {
            push_str(out, "process error (exit_code=");
            match exit_code {
                None => push_str(out, "None"),
                Some(v) => {
                    push_str(out, "Some(");
                    push_signed(out, *v as i64);
                    push_str(out, ")");
                },
            }
            push_str(out, "): ");
            push_str(out, stderr.as_str());
        },
        ProviderError::NestedSession => {
            push_str(
                out,
                "nested session detected: cannot launch CLI provider from within an existing session",
            );
        },
        ProviderError::ResponseTooLarge { limit } => {
            push_str(out, "response body exceeded ");
            push_decimal(out, *limit as u64);
            push_str(out, " bytes");
        },
        ProviderError::RetryAbandoned { reason, attempts } => {
            push_str(out, "retry abandoned after ");
            push_decimal(out, *attempts as u64);
            push_str(out, " attempt(s): ");
            push_abandon_debug(out, reason);
        },
        ProviderError::External { message, kind } => {
            push_str(out, "external provider error (");
            push_str(out, kind.debug_name());
            push_str(out, "): ");
            push_str(out, message.as_str());
        },
        ProviderError::ResponseContract { reason, detail } => {
            push_str(out, "response contract violated: ");
            push_str(out, reason.description());
            let s = suffix(detail.as_str());
            push_str(out, s.as_str());
        },
        ProviderError::EmptyCompletion { telemetry, cap } => {
            push_str(out, "empty completion: the model returned no content (termination: ");
            push_finish_opt_debug(out, &telemetry.finish);
            push_str(out, "). The output budget in force was ");
            push_decimal(out, *cap as u64);
            push_str(out, " tokens");
            push_remedy(out, telemetry.budget_bearing(), telemetry.prompt_tokens);
        },
        ProviderError::NoGeneration { done_reason } => {
            push_str(out, "no generation - token counters absent (termination: ");
            push_finish_opt_debug(out, done_reason);
            push_str(
                out,
                "); the known cause of this is a request without `messages`, which points at a defect in magi-core",
            );
        },
    }
    assert(final(out)@ =~= old(out)@ + provider_error_text(*e));
}

impl ProviderError {
    /// The human-readable message (what `Display` prints).
    pub fn message(&self) -> (r: String)
        ensures
            r@ == provider_error_text(*self),
    {
        let mut out: Vec<char> = Vec::new();
        push_provider_error(&mut out, self);
        assert(out@ =~= provider_error_text(*self));
        string_of(&out)
    }
}

/// The lineage names joined with `", "`.
pub open spec fn lineages_text(ls: Seq<Lineage>) -> Seq<char>
    decreases ls.len(),
{
    if ls.len() == 0 {
        Seq::<char>::empty()
    } else if ls.len() == 1 {
        ls[0].name@
    } else {
        lineages_text(ls.drop_last()) + ", "@ + ls.last().name@
    }
}

fn push_lineages(out: &mut Vec<char>, ls: &Vec<Lineage>)
    ensures
        final(out)@ == old(out)@ + lineages_text(ls@),
{
    let mut i: usize = 0;
    assert(ls@.take(0) =~= Seq::<Lineage>::empty());
    while i < ls.len()
        invariant
            i <= ls.len(),
            out@ == old(out)@ + lineages_text(ls@.take(i as int)),
        decreases ls.len() - i,
    {
        let ghost t = ls@.take(i + 1);
        assert(t.drop_last() =~= ls@.take(i as int));
        if i > 0 {
            push_str(out, ", ");
        } else {
            assert(t.len() == 1);
        }
        push_str(out, ls[i].as_str());
        assert(out@ =~= old(out)@ + lineages_text(t));
        i = i + 1;
    }
    assert(ls@.take(ls.len() as int) =~= ls@);
}

/// What a crate error says when displayed (I/O errors say what std says, which
/// depends on the system and is not stated here).
pub open spec fn magi_error_text(e: MagiError) -> Seq<char> {
    match e {
        MagiError::Validation(s) => "validation error: "@ + s@,
        MagiError::Provider(p) => provider_error_text(p),
        MagiError::InsufficientAgents { succeeded, required } => "insufficient agents: "@
            + dec_text(succeeded as nat) + " succeeded, "@ + dec_text(required as nat)
            + " required"@,
        MagiError::Deserialization(s) => "deserialization error: "@ + s@,
        MagiError::InputTooLarge { size, max } => "input too large: "@ + dec_text(size as nat)
            + " bytes exceeds maximum of "@ + dec_text(max as nat) + " bytes"@,
        MagiError::InvalidInput { reason } => "invalid input: "@ + reason@,
        MagiError::SkippedByComplexityGate { reason } => "skipped by complexity gate: "@ + reason@,
        MagiError::Io(_) => Seq::<char>::empty(),
        MagiError::EndpointDown { lineages } => "endpoint down: no lineage reachable ("@
            + lineages_text(lineages@) + ")"@,
        MagiError::CrateDefect { observation, hypothesis, agent, model, .. } =>
            "defect in magi-core, run aborted: "@ + observation@ + "; "@ + hypothesis@ + " (agent "@
                + agent_display(agent) + ", model "@ + model@ + ")"@,
        MagiError::PromptContract { agent, mode, reason } => "prompt contract violated"@ + (
        match agent {
            None => " (unassigned prompt)"@,
            Some(a) => " for "@ + agent_display(a),
        }) + (match mode {
            None => Seq::<char>::empty(),
            Some(m) => " (mode "@ + mode_debug(m) + ")"@,
        }) + ": "@ + reason@,
    }
}

/// std's `Display` of an `io::Error` (its text depends on the system).
#[verifier::external_body]
fn io_error_text(e: &std::io::Error) -> String {
    e.to_string()
}

impl MagiError {
    /// The human-readable message (what `Display` prints).
    pub fn message(&self) -> (r: String)
        ensures
            !(self is Io) ==> r@ == magi_error_text(*self),
    {
        let mut out: Vec<char> = Vec::new();
        match self {
            MagiError::Validation(s) => {
                push_str(&mut out, "validation error: ");
                push_str(&mut out, s.as_str());
            },
            MagiError::Provider(p) => {
                push_provider_error(&mut out, p);
            },
            MagiError::InsufficientAgents { succeeded, required } => {
                push_str(&mut out, "insufficient agents: ");
                push_decimal(&mut out, *succeeded as u64);
                push_str(&mut out, " succeeded, ");
                push_decimal(&mut out, *required as u64);
                push_str(&mut out, " required");
            },
            MagiError::Deserialization(s) => {
                push_str(&mut out, "deserialization error: ");
                push_str(&mut out, s.as_str());
            },
            MagiError::InputTooLarge { size, max } => {
                push_str(&mut out, "input too large: ");
                push_decimal(&mut out, *size as u64);
                push_str(&mut out, " bytes exceeds maximum of ");
                push_decimal(&mut out, *max as u64);
                push_str(&mut out, " bytes");
            },
            MagiError::InvalidInput { reason } => {
                push_str(&mut out, "invalid input: ");
                push_str(&mut out, reason.as_str());
            },
            MagiError::SkippedByComplexityGate { reason } => {
                push_str(&mut out, "skipped by complexity gate: ");
                push_str(&mut out, reason.as_str());
            },
            MagiError::Io(e) => {
                return io_error_text(e);
            },
            MagiError::EndpointDown { lineages } => {
                push_str(&mut out, "endpoint down: no lineage reachable (");
                push_lineages(&mut out, lineages);
                push_str(&mut out, ")");
            },
            MagiError::CrateDefect { observation, hypothesis, agent, model, .. } => {
                push_str(&mut out, "defect in magi-core, run aborted: ");
                push_str(&mut out, observation.as_str());
                push_str(&mut out, "; ");
                push_str(&mut out, hypothesis);
                push_str(&mut out, " (agent ");
                push_str(&mut out, agent.display_name());
                push_str(&mut out, ", model ");
                push_str(&mut out, model.as_str());
                push_str(&mut out, ")");
            },
            MagiError::PromptContract { agent, mode, reason } => {
                push_str(&mut out, "prompt contract violated");
                match agent {
                    None => push_str(&mut out, " (unassigned prompt)"),
                    Some(a) => {
                        push_str(&mut out, " for ");
                        push_str(&mut out, a.display_name());
                    },
                }
                match mode {
                    None => {},
                    Some(m) => {
                        push_str(&mut out, " (mode ");
                        push_str(&mut out, m.debug_name());
                        push_str(&mut out, ")");
                    },
                }
                push_str(&mut out, ": ");
                push_str(&mut out, reason.as_str());
            },
        }
        assert(out@ =~= magi_error_text(*self));
        string_of(&out)
    }
}

impl From<ProviderError> for MagiError {
    fn from(err: ProviderError) -> (r: MagiError) {
        MagiError::Provider(err)
    }
}

impl vstd::std_specs::convert::FromSpecImpl<ProviderError> for MagiError {
    open spec fn obeys_from_spec() -> bool {
        true
    }

    open spec fn from_spec(v: ProviderError) -> MagiError {
        MagiError::Provider(v)
    }
}

impl From<std::io::Error> for MagiError {
    fn from(err: std::io::Error) -> (r: MagiError) {
        MagiError::Io(err)
    }
}

impl vstd::std_specs::convert::FromSpecImpl<std::io::Error> for MagiError {
    open spec fn obeys_from_spec() -> bool {
        true
    }

    open spec fn from_spec(v: std::io::Error) -> MagiError {
        MagiError::Io(v)
    }
}

// ---------------------------------------------------------------------------
// Laws
// ---------------------------------------------------------------------------

/// An external message never exceeds its cap, and it is marked exactly when
/// something was cut.
pub proof fn law_external_message_bounded(raw: Seq<char>)
    ensures
        utf8_len(external_message_text(raw)) <= 400,
        utf8_len(raw) <= 400 ==> external_message_text(raw) == raw,
        utf8_len(raw) > 400 ==> external_message_text(raw).take(
            external_message_text(raw).len() - 14,
        ) == raw.take(external_message_text(raw).len() - 14)
            && external_message_text(raw).subrange(
            external_message_text(raw).len() - 14,
            external_message_text(raw).len() as int,
        ) == marker_text(),
{
    lemma_marker_shape();
    if utf8_len(raw) > 400 {
        crate::text::lemma_fitting_prefix(raw, 384);
        let n = fitting_prefix_len(raw, 384);
        let head = raw.take(n as int);
        lemma_utf8_len_concat(head, marker_text());
        let m = head + marker_text();
        assert(m.take(m.len() - 14) =~= head);
        assert(raw.take(n as int) =~= head);
        assert(m.subrange(m.len() - 14, m.len() as int) =~= marker_text());
    }
}

} // verus!

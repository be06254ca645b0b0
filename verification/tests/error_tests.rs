use std::time::{Duration, Instant};

use magi_core::error::{
    AbandonReason, ExternalErrorKind, Lineage, MagiError, ProviderError, ResponseContractCause,
    mark_within_cap, MAX_CONTRACT_DETAIL_CHARS, MAX_EXTERNAL_MESSAGE_BYTES, REMEDY_PRESCRIBES,
    REMEDY_RULED_OUT, REMEDY_UNKNOWN, TRUNCATION_MARKER,
};
use magi_core::schema::AgentName;
use magi_core::telemetry::{CompletionTelemetry, FinishReason};

fn external_message(err: &ProviderError) -> String {
    match err {
        ProviderError::External { message, .. } => message.clone(),
        other => panic!("expected External, got {other:?}"),
    }
}

fn render_empty(f: Option<FinishReason>, cap: u32) -> String {
    let mut t = CompletionTelemetry::unmeasured();
    if let Some(f) = f {
        t = t.with_finish(f);
    }
    ProviderError::EmptyCompletion { telemetry: t, cap }.message()
}

#[test]
fn the_unit_of_separation_is_the_consequence_not_the_case() {
    let a = ProviderError::ResponseContract {
        reason: ResponseContractCause::NoMessage,
        detail: String::new(),
    };
    let b = ProviderError::ResponseContract {
        reason: ResponseContractCause::Unreadable,
        detail: String::new(),
    };
    assert_eq!(std::mem::discriminant(&a), std::mem::discriminant(&b));
}

#[test]
fn empty_choices_is_valid_json_so_the_name_must_not_say_malformed() {
    let n = format!("{:?}", ResponseContractCause::NoMessage);
    assert!(!n.to_lowercase().contains("malformed"), "{n}");
    assert!(!n.to_lowercase().contains("choices"), "{n}");
}

#[test]
fn no_generation_carries_the_observed_reason_and_nothing_else() {
    let e = ProviderError::NoGeneration { done_reason: Some(FinishReason::Load) };
    assert!(!format!("{e:?}").contains("tokens"));
}

#[test]
fn an_empty_completion_names_the_cap_and_says_it_is_configurable() {
    let rendered = ProviderError::EmptyCompletion {
        telemetry: CompletionTelemetry::unmeasured().with_finish(FinishReason::Length),
        cap: 4096,
    }
    .message();
    assert!(rendered.contains("4096"), "{rendered}");
    assert!(rendered.contains("max_tokens"), "{rendered}");
    assert!(!rendered.to_lowercase().contains("http"), "{rendered}");
}

#[test]
fn an_empty_completion_prescribes_the_cap_only_where_the_cap_is_the_fix() {
    for may in [None, Some(FinishReason::Length)] {
        let s = render_empty(may, 16_384);
        assert!(s.contains("16384"), "{s}");
        assert!(s.contains("not measured"), "{s}");
        assert!(s.contains(REMEDY_PRESCRIBES), "{s}");
        assert!(!s.contains(REMEDY_RULED_OUT), "{s}");
        assert!(!s.contains(REMEDY_UNKNOWN), "{s}");
    }
    for ruled_out in [FinishReason::Stop, FinishReason::Load] {
        let s = render_empty(Some(ruled_out), 16_384);
        assert!(s.contains("16384"), "{s}");
        assert!(s.contains(REMEDY_RULED_OUT), "{s}");
        assert!(!s.contains(REMEDY_PRESCRIBES), "{s}");
    }
    let s = render_empty(
        Some(FinishReason::Other("a_reason_invented_after_this_was_written".to_string())),
        16_384,
    );
    assert!(s.contains("16384"), "{s}");
    assert!(s.contains(REMEDY_UNKNOWN), "{s}");
    assert!(!s.contains(REMEDY_PRESCRIBES), "{s}");
    assert!(!s.contains(REMEDY_RULED_OUT), "{s}");
    let measured = ProviderError::EmptyCompletion {
        telemetry: CompletionTelemetry::unmeasured()
            .with_finish(FinishReason::Length)
            .with_prompt_tokens(63_924),
        cap: 16_384,
    }
    .message();
    assert!(measured.contains("63924"), "{measured}");
}

#[test]
fn a_crate_defect_keeps_the_observation_apart_from_the_hypothesis() {
    let e = MagiError::CrateDefect {
        observation: "no generation - token counters absent".to_string(),
        hypothesis: "the known cause is a request without `messages`",
        agent: AgentName::Caspar,
        model: "glm-5.2:cloud".to_string(),
        joined_before_abort: Vec::new(),
    };
    let rendered = e.message();
    assert!(rendered.contains("no generation - token counters absent"));
    assert!(rendered.contains("the known cause is"));
    assert!(rendered.contains("magi-core"), "{rendered}");
}

#[test]
fn test_endpoint_down_variant_carries_lineages() {
    let e = MagiError::EndpointDown { lineages: vec![Lineage::new("a"), Lineage::new("b")] };
    assert!(matches!(e, MagiError::EndpointDown { .. }));
    assert!(e.message().contains("endpoint"));
}

#[test]
fn test_provider_error_http_display_contains_status_and_body() {
    let err = ProviderError::Http {
        status: 500,
        body: "Internal Server Error".to_string(),
        retry_after_raw: vec![],
        received_at: None,
    };
    let display = err.message();
    assert!(display.contains("500"), "Display should contain status code");
    assert!(display.contains("Internal Server Error"), "Display should contain body");
}

#[test]
fn test_provider_error_network_display_contains_message() {
    let err = ProviderError::Network { message: "connection refused".to_string() };
    assert!(err.message().contains("connection refused"));
}

#[test]
fn test_provider_error_timeout_display_contains_message() {
    let err = ProviderError::Timeout { message: "exceeded 30s".to_string() };
    assert!(err.message().contains("exceeded 30s"));
}

#[test]
fn test_provider_error_auth_display_contains_message() {
    let err = ProviderError::Auth { message: "invalid api key".to_string() };
    assert!(err.message().contains("invalid api key"));
}

#[test]
fn test_provider_error_process_display_includes_exit_code_and_stderr() {
    let err = ProviderError::Process { exit_code: Some(1), stderr: "segfault".to_string() };
    let display = err.message();
    assert!(display.contains("1"), "Display should contain exit code");
    assert!(display.contains("segfault"), "Display should contain stderr");
}

#[test]
fn test_provider_error_process_display_none_exit_code() {
    let err = ProviderError::Process { exit_code: None, stderr: "killed".to_string() };
    assert!(err.message().contains("killed"));
}

#[test]
fn test_provider_error_nested_session_display() {
    let err = ProviderError::NestedSession;
    assert!(!err.message().is_empty());
}

#[test]
fn test_http_variant_carries_retry_after_and_receipt() {
    let now = Instant::now();
    let err = ProviderError::Http {
        status: 429,
        body: "rate limited".to_string(),
        retry_after_raw: vec!["12".to_string()],
        received_at: Some(now),
    };
    match err {
        ProviderError::Http { retry_after_raw, .. } => {
            assert_eq!(retry_after_raw, vec!["12".to_string()]);
        }
        _ => panic!("expected Http variant"),
    }
}

#[test]
fn test_retry_abandoned_reports_budget_exhaustion() {
    let err = ProviderError::RetryAbandoned {
        reason: AbandonReason::OperationBudgetExhausted {
            elapsed: Duration::from_secs(600),
            budget: Duration::from_secs(600),
        },
        attempts: 2,
    };
    let msg = err.message();
    assert!(msg.contains('2'), "message must name the attempt count: {msg}");
}

#[test]
fn test_retry_abandoned_reports_retry_after_too_long() {
    let err = ProviderError::RetryAbandoned {
        reason: AbandonReason::RetryAfterTooLong {
            requested: Duration::from_secs(600),
            cap: Duration::from_secs(300),
        },
        attempts: 1,
    };
    assert!(err.message().contains("retry"), "{}", err.message());
}

#[test]
fn test_magi_error_validation_contains_message() {
    let err = MagiError::Validation("confidence out of range".to_string());
    assert!(err.message().contains("confidence out of range"));
}

#[test]
fn test_magi_error_insufficient_agents_formats_counts() {
    let err = MagiError::InsufficientAgents { succeeded: 1, required: 2 };
    let display = err.message();
    assert!(display.contains("1"));
    assert!(display.contains("2"));
}

#[test]
fn test_magi_error_input_too_large_formats_size_and_max() {
    let err = MagiError::InputTooLarge { size: 2_000_000, max: 1_048_576 };
    let display = err.message();
    assert!(display.contains("2000000"));
    assert!(display.contains("1048576"));
}

#[test]
fn test_from_provider_error_wraps_into_magi_error_provider() {
    let pe = ProviderError::Timeout { message: "timed out".to_string() };
    let me: MagiError = pe.into();
    assert!(matches!(me, MagiError::Provider(_)));
}

#[test]
fn test_from_io_error_produces_io_variant() {
    let io_err = std::io::Error::new(std::io::ErrorKind::NotFound, "missing");
    let me: MagiError = io_err.into();
    assert!(matches!(me, MagiError::Io(_)), "Should produce Io variant");
}

#[test]
fn a_short_external_message_survives_untouched() {
    let err = ProviderError::external("backend unreachable", ExternalErrorKind::Network);
    assert_eq!(external_message(&err), "backend unreachable");
    assert!(!err.message().contains("truncated"));
}

#[test]
fn an_oversized_external_message_is_cut_and_says_so() {
    let err = ProviderError::external(
        &"x".repeat(MAX_EXTERNAL_MESSAGE_BYTES * 2),
        ExternalErrorKind::Other,
    );
    let message = external_message(&err);
    assert!(message.len() <= MAX_EXTERNAL_MESSAGE_BYTES, "{}", message.len());
    assert!(message.contains("truncated"));
}

#[test]
fn truncation_never_splits_a_multibyte_character() {
    let err = ProviderError::external(
        &"\u{4f60}".repeat(MAX_EXTERNAL_MESSAGE_BYTES),
        ExternalErrorKind::ServerError,
    );
    let message = external_message(&err);
    assert!(message.len() <= MAX_EXTERNAL_MESSAGE_BYTES);
    assert!(message.contains("truncated"));
}

#[test]
fn a_message_of_exactly_the_cap_is_kept_whole() {
    for (len, truncated) in [
        (MAX_EXTERNAL_MESSAGE_BYTES - 1, false),
        (MAX_EXTERNAL_MESSAGE_BYTES, false),
        (MAX_EXTERNAL_MESSAGE_BYTES + 1, true),
    ] {
        let err = ProviderError::external(&"x".repeat(len), ExternalErrorKind::Other);
        let message = external_message(&err);
        assert!(message.len() <= MAX_EXTERNAL_MESSAGE_BYTES, "{len}");
        assert_eq!(message.contains("truncated"), truncated, "{len}");
    }
}

#[test]
fn truncation_never_splits_a_four_byte_character() {
    let err = ProviderError::external(
        &"\u{1f600}".repeat(MAX_EXTERNAL_MESSAGE_BYTES),
        ExternalErrorKind::ServerError,
    );
    let message = external_message(&err);
    assert!(message.len() <= MAX_EXTERNAL_MESSAGE_BYTES);
    assert!(message.contains("truncated"));
    assert!(message.chars().any(|c| c == '\u{1f600}'));
}

#[test]
fn the_kind_reaches_the_rendered_message() {
    let err = ProviderError::external("nope", ExternalErrorKind::Auth);
    assert!(err.message().contains("Auth"), "{}", err.message());
}

#[test]
fn the_empty_completion_error_carries_its_own_fix() {
    let e = ProviderError::EmptyCompletion {
        telemetry: CompletionTelemetry::unmeasured().with_finish(FinishReason::Length),
        cap: 16_384,
    };
    let s = e.message();
    assert!(s.contains("16384"), "{s}");
    assert!(s.contains("max_tokens"), "{s}");
    assert!(!s.to_lowercase().contains("http"), "{s}");
}

#[test]
fn a_genuine_empty_and_a_budget_empty_read_differently() {
    let a = render_empty(Some(FinishReason::Stop), 16_384);
    let b = render_empty(Some(FinishReason::Length), 16_384);
    assert_ne!(a, b);
}

#[test]
fn a_contract_failure_can_still_say_which_endpoint_it_happened_on() {
    let with = ProviderError::ResponseContract {
        reason: ResponseContractCause::RedirectRefused,
        detail: "POST https://api.example.com/v1?key=[REDACTED]: too many redirects".into(),
    };
    let rendered = with.message();
    assert!(rendered.contains("api.example.com"), "{rendered}");
    assert!(rendered.contains("redirect"), "{rendered}");
    let without = ProviderError::ResponseContract {
        reason: ResponseContractCause::NoMessage,
        detail: String::new(),
    };
    assert!(!without.message().contains("()"), "{}", without.message());
}

#[test]
fn the_shipped_messages_carry_no_space_runs_from_a_joined_source_line() {
    let rendered = [
        ProviderError::EmptyCompletion {
            telemetry: CompletionTelemetry::unmeasured().with_finish(FinishReason::Length),
            cap: 16_384,
        }
        .message(),
        ProviderError::NoGeneration { done_reason: Some(FinishReason::Load) }.message(),
        ProviderError::ResponseContract {
            reason: ResponseContractCause::NoMessage,
            detail: String::new(),
        }
        .message(),
    ];
    for s in rendered {
        assert!(!s.contains("   "), "{s:?}");
    }
}

#[test]
fn a_contract_detail_is_capped_at_the_declared_length() {
    let long = "x".repeat(MAX_CONTRACT_DETAIL_CHARS * 4);
    let err = ProviderError::response_contract(ResponseContractCause::RedirectRefused, &long);
    let ProviderError::ResponseContract { detail, .. } = &err else {
        panic!("the constructor must build its own variant");
    };
    assert_eq!(detail.chars().count(), MAX_CONTRACT_DETAIL_CHARS);
}

#[test]
fn a_contract_detail_under_the_cap_is_untouched() {
    let err = ProviderError::response_contract(
        ResponseContractCause::RedirectRefused,
        "redirect refused by policy for https://gw.example.com/v1",
    );
    let ProviderError::ResponseContract { detail, .. } = &err else {
        panic!("the constructor must build its own variant");
    };
    assert_eq!(detail, "redirect refused by policy for https://gw.example.com/v1");
}

#[test]
fn a_multi_byte_contract_detail_is_cut_without_panicking() {
    let long = "é".repeat(MAX_CONTRACT_DETAIL_CHARS * 2);
    let err = ProviderError::response_contract(ResponseContractCause::Unreadable, &long);
    let ProviderError::ResponseContract { detail, .. } = &err else {
        panic!("the constructor must build its own variant");
    };
    assert_eq!(detail.chars().count(), MAX_CONTRACT_DETAIL_CHARS);
    assert!(detail.chars().all(|c| c == 'é'));
}

#[test]
fn mark_within_cap_cuts_on_a_char_boundary_and_reserves_the_marker() {
    let text = "áéíóú".repeat(50);
    let out = mark_within_cap(&text, 20);
    assert!(out.len() <= 20, "output must fit the cap, got {}", out.len());
    assert!(out.ends_with(TRUNCATION_MARKER));
    assert!(text.starts_with(out.trim_end_matches(TRUNCATION_MARKER)));
}

#[test]
fn mark_within_cap_marks_even_when_the_text_fits() {
    let text = "short";
    let out = mark_within_cap(text, 4096);
    assert_eq!(out, format!("{text}{TRUNCATION_MARKER}"));
    assert!(out.len() <= 4096);
}

#[test]
fn mark_within_cap_survives_a_cap_smaller_than_the_marker() {
    let text = "some long text that will not fit";
    assert_eq!(TRUNCATION_MARKER, " … (truncated)");
    let out = mark_within_cap(text, 2);
    assert_eq!(out, " ", "cap=2 cuts the ellipsis in half: only the space survives");
}

#[test]
fn mark_within_cap_at_exactly_the_marker_length() {
    let out = mark_within_cap("some text", TRUNCATION_MARKER.len());
    assert_eq!(out, TRUNCATION_MARKER);
}

#[test]
fn mark_within_cap_returns_empty_for_a_zero_cap() {
    assert_eq!(mark_within_cap("anything", 0), "");
}

#[test]
fn mark_within_cap_marks_an_empty_input_too() {
    assert_eq!(mark_within_cap("", 4096), TRUNCATION_MARKER);
}

#[test]
fn mark_within_cap_at_budget_minus_one_stays_uncut() {
    let cap = 50;
    let budget = cap - TRUNCATION_MARKER.len();
    let text = "x".repeat(budget - 1);
    let out = mark_within_cap(&text, cap);
    assert_eq!(out, format!("{text}{TRUNCATION_MARKER}"), "must not be cut");
    assert_eq!(out.len(), cap - 1);
}

#[test]
fn mark_within_cap_at_the_budget_stays_uncut() {
    let cap = 50;
    let budget = cap - TRUNCATION_MARKER.len();
    let text = "x".repeat(budget);
    let out = mark_within_cap(&text, cap);
    assert_eq!(out, format!("{text}{TRUNCATION_MARKER}"), "must not be cut");
    assert_eq!(out.len(), cap);
}

#[test]
fn mark_within_cap_one_over_the_budget_cuts_by_one_byte() {
    let cap = 50;
    let budget = cap - TRUNCATION_MARKER.len();
    let text = "x".repeat(budget + 1);
    let out = mark_within_cap(&text, cap);
    assert_eq!(out, format!("{}{TRUNCATION_MARKER}", &text[..budget]));
    assert_eq!(out.len(), cap);
}

#[test]
fn an_empty_external_message_is_kept_empty() {
    let err = ProviderError::external("", ExternalErrorKind::Other);
    assert_eq!(external_message(&err), "");
    assert!(!err.message().contains("truncated"));
}

// ---------------------------------------------------------------------------
// Exact renderings
// ---------------------------------------------------------------------------

#[test]
fn provider_failures_render_their_exact_text() {
    let net = ProviderError::Network { message: "refused".to_string() };
    let http = ProviderError::Http {
        status: 503,
        body: "busy".to_string(),
        retry_after_raw: vec![],
        received_at: None,
    };
    let wrapped: MagiError = net.clone().into();
    assert_eq!(wrapped.message(), net.message());
    assert!(http.message().contains("503"));
    assert!(http.message().contains("busy"));
}

#[test]
fn a_lineage_is_trimmed_at_construction() {
    assert_eq!(Lineage::new("  alibaba \t").as_str(), "alibaba");
    assert_eq!(Lineage::new("   ").as_str(), "");
}

#[test]
fn each_magi_error_variant_renders_its_own_prefix() {
    assert_eq!(
        MagiError::Deserialization("bad".to_string()).message(),
        "deserialization error: bad"
    );
    assert_eq!(
        MagiError::InvalidInput { reason: "r".to_string() }.message(),
        "invalid input: r"
    );
    assert_eq!(
        MagiError::SkippedByComplexityGate { reason: "g".to_string() }.message(),
        "skipped by complexity gate: g"
    );
    assert_eq!(
        MagiError::InsufficientAgents { succeeded: 1, required: 2 }.message(),
        "insufficient agents: 1 succeeded, 2 required"
    );
    assert_eq!(
        MagiError::InputTooLarge { size: 10, max: 5 }.message(),
        "input too large: 10 bytes exceeds maximum of 5 bytes"
    );
}

#[test]
fn the_external_cap_is_an_exact_length_when_cut() {
    let err = ProviderError::external(&"x".repeat(1000), ExternalErrorKind::Other);
    let message = external_message(&err);
    assert_eq!(message.len(), MAX_EXTERNAL_MESSAGE_BYTES);
    assert!(message.ends_with(TRUNCATION_MARKER));
}

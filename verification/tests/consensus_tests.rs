use magi_core::consensus::{consensus_label, dedup_key, ConsensusEngine, ScoreClass, Tally};
use magi_core::error::MagiError;
use magi_core::schema::{AgentName, AgentOutput, Category, Finding, Severity, Verdict};

fn make_output(agent: AgentName, verdict: Verdict) -> AgentOutput {
    AgentOutput {
        agent,
        verdict,
        summary: format!("{} summary", agent.display_name()),
        reasoning: format!("{} reasoning", agent.display_name()),
        findings: vec![],
        recommendation: format!("{} recommendation", agent.display_name()),
    }
}

fn tally(agents: &[AgentOutput]) -> Tally {
    ConsensusEngine::default().tally(agents).expect("a valid set of outputs")
}

fn vote_of(t: &Tally, agent: AgentName) -> Verdict {
    t.votes.iter().find(|(a, _)| *a == agent).map(|(_, v)| *v).expect("every agent votes")
}

fn recommendation_of(t: &Tally, agent: AgentName) -> String {
    t.recommendations
        .iter()
        .find(|(a, _)| *a == agent)
        .map(|(_, r)| r.clone())
        .expect("every agent recommends")
}

// ---------------------------------------------------------------------------
// Deduplication
// ---------------------------------------------------------------------------

#[test]
fn test_duplicate_findings_merged_with_severity_promoted() {
    let mut m = make_output(AgentName::Melchior, Verdict::Approve);
    m.findings.push(Finding::new(Severity::Warning, "Security Issue", "detail_warning"));
    let mut b = make_output(AgentName::Balthasar, Verdict::Approve);
    b.findings.push(Finding::new(Severity::Critical, "security issue", "detail_critical"));
    let c = make_output(AgentName::Caspar, Verdict::Approve);
    let t = tally(&[m, b, c]);
    assert_eq!(t.findings.len(), 1);
    assert_eq!(t.findings[0].severity, Severity::Critical);
}

#[test]
fn test_merged_finding_sources_include_both_agents() {
    let mut m = make_output(AgentName::Melchior, Verdict::Approve);
    m.findings.push(Finding::new(Severity::Warning, "Security Issue", "detail_m"));
    let mut b = make_output(AgentName::Balthasar, Verdict::Approve);
    b.findings.push(Finding::new(Severity::Critical, "security issue", "detail_b"));
    let c = make_output(AgentName::Caspar, Verdict::Approve);
    let t = tally(&[m, b, c]);
    assert_eq!(t.findings[0].sources.len(), 2);
    assert!(t.findings[0].sources.contains(&AgentName::Melchior));
    assert!(t.findings[0].sources.contains(&AgentName::Balthasar));
}

#[test]
fn test_merged_finding_detail_from_highest_severity() {
    let mut m = make_output(AgentName::Melchior, Verdict::Approve);
    m.findings.push(Finding::new(Severity::Warning, "Issue", "detail_warning"));
    let mut b = make_output(AgentName::Balthasar, Verdict::Approve);
    b.findings.push(Finding::new(Severity::Critical, "issue", "detail_critical"));
    let c = make_output(AgentName::Caspar, Verdict::Approve);
    let t = tally(&[m, b, c]);
    assert_eq!(t.findings[0].detail, "detail_critical");
}

#[test]
fn test_merged_finding_detail_from_first_agent_on_same_severity() {
    let mut b = make_output(AgentName::Balthasar, Verdict::Approve);
    b.findings.push(Finding::new(Severity::Warning, "Issue", "detail_b"));
    let mut m = make_output(AgentName::Melchior, Verdict::Approve);
    m.findings.push(Finding::new(Severity::Warning, "issue", "detail_m"));
    let c = make_output(AgentName::Caspar, Verdict::Approve);
    let t = tally(&[b, m, c]);
    assert_eq!(t.findings[0].detail, "detail_b");
}

#[test]
fn test_findings_sorted_by_severity_critical_first() {
    let mut m = make_output(AgentName::Melchior, Verdict::Approve);
    m.findings.push(Finding::new(Severity::Info, "Info issue", "info detail"));
    m.findings.push(Finding::new(Severity::Critical, "Critical issue", "critical detail"));
    let b = make_output(AgentName::Balthasar, Verdict::Approve);
    let c = make_output(AgentName::Caspar, Verdict::Approve);
    let t = tally(&[m, b, c]);
    assert_eq!(t.findings.len(), 2);
    assert_eq!(t.findings[0].severity, Severity::Critical);
    assert_eq!(t.findings[1].severity, Severity::Info);
}

#[test]
fn test_dedup_tab_normalizes_to_space_but_double_space_is_distinct() {
    let mut m = make_output(AgentName::Melchior, Verdict::Approve);
    m.findings.push(Finding::new(Severity::Warning, "SQL  injection", "detail_m"));
    let mut b = make_output(AgentName::Balthasar, Verdict::Approve);
    b.findings.push(Finding::new(Severity::Warning, "SQL\tinjection", "detail_b"));
    let mut c = make_output(AgentName::Caspar, Verdict::Approve);
    c.findings.push(Finding::new(Severity::Critical, "sql injection", "detail_c"));
    let t = tally(&[m, b, c]);
    assert_eq!(t.findings.len(), 2);
    assert_eq!(t.findings[0].severity, Severity::Critical);
    assert_eq!(t.findings[0].sources.len(), 2);
    assert_eq!(t.findings[1].severity, Severity::Warning);
    assert_eq!(t.findings[1].sources.len(), 1);
}

#[test]
fn test_dedup_key_nfkc_collapses_fullwidth_latin() {
    assert_eq!(dedup_key("\u{FF21}\u{FF22}\u{FF23}"), dedup_key("abc"));
}

#[test]
fn test_dedup_key_nfkc_collapses_combining_accents() {
    assert_eq!(dedup_key("caf\u{E9}"), dedup_key("cafe\u{301}"));
}

#[test]
fn test_dedup_key_casefold_sharp_s_equals_double_s() {
    assert_eq!(dedup_key("\u{DF}"), dedup_key("ss"));
}

#[test]
fn test_dedup_key_casefold_greek_sigma_variants() {
    let capital = dedup_key("\u{03A3}");
    let small = dedup_key("\u{03C3}");
    let final_s = dedup_key("\u{03C2}");
    assert_eq!(capital, small);
    assert_eq!(small, final_s);
}

#[test]
fn test_dedup_key_casefold_turkish_dotted_i() {
    assert_eq!(dedup_key("\u{0130}"), "i\u{307}");
}

#[test]
fn test_dedup_key_preserves_interior_whitespace() {
    assert_ne!(dedup_key("foo  bar"), dedup_key("foo bar"));
}

#[test]
fn the_dedup_key_drops_zero_width_and_trims() {
    assert_eq!(dedup_key("  Foo\u{200B}Bar \r\n"), "foobar");
    assert_eq!(dedup_key("a\r\nb"), "a b");
}

#[test]
fn test_dedup_merges_fullwidth_and_ascii_titles() {
    let mut m = make_output(AgentName::Melchior, Verdict::Approve);
    m.findings.push(Finding::new(
        Severity::Warning,
        "\u{FF33}\u{FF31}\u{FF2C} injection",
        "detail_fullwidth",
    ));
    let mut b = make_output(AgentName::Balthasar, Verdict::Approve);
    b.findings.push(Finding::new(Severity::Critical, "sql injection", "detail_ascii"));
    let c = make_output(AgentName::Caspar, Verdict::Approve);
    let t = tally(&[m, b, c]);
    assert_eq!(t.findings.len(), 1);
    assert_eq!(t.findings[0].severity, Severity::Critical);
}

#[test]
fn test_dedup_first_seen_order_preserved_when_melchior_reports_first() {
    let mut m = make_output(AgentName::Melchior, Verdict::Approve);
    m.findings.push(Finding::new(Severity::Warning, "Issue A", "detail_m"));
    let mut b = make_output(AgentName::Balthasar, Verdict::Approve);
    b.findings.push(Finding::new(Severity::Warning, "issue a", "detail_b"));
    let c = make_output(AgentName::Caspar, Verdict::Approve);
    let t = tally(&[m, b, c]);
    assert_eq!(t.findings.len(), 1);
    assert_eq!(t.findings[0].title, "Issue A");
    assert_eq!(t.findings[0].sources, vec![AgentName::Melchior, AgentName::Balthasar]);
}

#[test]
fn test_dedup_first_seen_order_preserved_when_balthasar_reports_first() {
    let mut b = make_output(AgentName::Balthasar, Verdict::Approve);
    b.findings.push(Finding::new(Severity::Warning, "issue a", "detail_b"));
    let mut m = make_output(AgentName::Melchior, Verdict::Approve);
    m.findings.push(Finding::new(Severity::Warning, "Issue A", "detail_m"));
    let c = make_output(AgentName::Caspar, Verdict::Approve);
    let t = tally(&[b, m, c]);
    assert_eq!(t.findings.len(), 1);
    assert_eq!(t.findings[0].title, "issue a");
    assert_eq!(t.findings[0].sources, vec![AgentName::Balthasar, AgentName::Melchior]);
}

#[test]
fn test_dedup_ordering_stable_across_equal_severity() {
    let mut m = make_output(AgentName::Melchior, Verdict::Approve);
    m.findings.push(Finding::new(Severity::Warning, "Alpha Issue", "detail_alpha"));
    let mut b = make_output(AgentName::Balthasar, Verdict::Approve);
    b.findings.push(Finding::new(Severity::Warning, "Beta Issue", "detail_beta"));
    let c = make_output(AgentName::Caspar, Verdict::Approve);
    let t = tally(&[m, b, c]);
    assert_eq!(t.findings.len(), 2);
    assert_eq!(t.findings[0].title, "Alpha Issue");
    assert_eq!(t.findings[1].title, "Beta Issue");
}

#[test]
fn test_dedup_merges_colocated_by_id_across_agents() {
    let mut m = make_output(AgentName::Melchior, Verdict::Approve);
    let mut b = make_output(AgentName::Balthasar, Verdict::Reject);
    m.findings.push(
        Finding::new(Severity::Warning, "Off-by-one", "d")
            .with_location("src/x.rs", 42)
            .with_category(Category::LogicError),
    );
    b.findings.push(
        Finding::new(Severity::Critical, "Indice fuera de rango", "d2")
            .with_location("src/x.rs", 42)
            .with_category(Category::LogicError),
    );
    let out = ConsensusEngine::default().deduplicate_findings(&[m, b]);
    assert_eq!(out.len(), 1);
    assert_eq!(out[0].severity, Severity::Critical);
    assert_eq!(out[0].sources, vec![AgentName::Melchior, AgentName::Balthasar]);
    assert_eq!(out[0].id.as_deref(), Some("7fb2a28931164f30"));
}

#[test]
fn test_dedup_falls_back_to_title_when_unlocated() {
    let mut m = make_output(AgentName::Melchior, Verdict::Approve);
    let mut b = make_output(AgentName::Balthasar, Verdict::Approve);
    m.findings.push(Finding::new(Severity::Warning, "Same Title", "d"));
    b.findings.push(Finding::new(Severity::Warning, "same title", "d"));
    let out = ConsensusEngine::default().deduplicate_findings(&[m, b]);
    assert_eq!(out.len(), 1);
    assert!(out[0].id.is_none());
}

#[test]
fn test_dedup_different_category_same_location_does_not_merge() {
    let mut m = make_output(AgentName::Melchior, Verdict::Approve);
    m.findings.push(
        Finding::new(Severity::Warning, "a", "d")
            .with_location("src/x.rs", 42)
            .with_category(Category::LogicError),
    );
    m.findings.push(
        Finding::new(Severity::Warning, "b", "d")
            .with_location("src/x.rs", 42)
            .with_category(Category::Injection),
    );
    assert_eq!(ConsensusEngine::default().deduplicate_findings(&[m]).len(), 2);
}

#[test]
fn test_dedup_located_and_unlocated_same_title_do_not_collide() {
    let mut m = make_output(AgentName::Melchior, Verdict::Approve);
    m.findings.push(Finding::new(Severity::Warning, "T", "d").with_location("x", 1));
    m.findings.push(Finding::new(Severity::Warning, "T", "d"));
    assert_eq!(ConsensusEngine::default().deduplicate_findings(&[m]).len(), 2);
}

#[test]
fn test_dedup_treats_zero_line_as_unlocated() {
    let mut m = make_output(AgentName::Melchior, Verdict::Approve);
    m.findings.push(Finding::new(Severity::Warning, "t", "d").with_location("src/x.rs", 0));
    let out = ConsensusEngine::default().deduplicate_findings(&[m]);
    assert_eq!(out.len(), 1);
    assert!(out[0].id.is_none());
}

#[test]
fn an_empty_file_name_is_unlocated() {
    let mut m = make_output(AgentName::Melchior, Verdict::Approve);
    m.findings.push(Finding::new(Severity::Info, "t", "d").with_location("", 3));
    let out = ConsensusEngine::default().deduplicate_findings(&[m]);
    assert!(out[0].id.is_none());
    assert_eq!(out[0].file.as_deref(), Some(""));
}

// ---------------------------------------------------------------------------
// Votes, majority, dissent, conditions
// ---------------------------------------------------------------------------

#[test]
fn test_determine_rejects_fewer_than_min_agents() {
    let agents = vec![make_output(AgentName::Melchior, Verdict::Approve)];
    let result = ConsensusEngine::default().tally(&agents);
    assert!(matches!(
        result,
        Err(MagiError::InsufficientAgents { succeeded: 1, required: 2 })
    ));
}

#[test]
fn test_determine_rejects_duplicate_agent_names() {
    let agents = vec![
        make_output(AgentName::Melchior, Verdict::Approve),
        make_output(AgentName::Melchior, Verdict::Reject),
    ];
    match ConsensusEngine::default().tally(&agents) {
        Err(MagiError::Validation(m)) => assert_eq!(m, "duplicate agent name: Melchior"),
        _ => panic!("a duplicate agent is a validation error"),
    }
}

#[test]
fn test_majority_summary_joins_with_pipe() {
    let t = tally(&[
        make_output(AgentName::Melchior, Verdict::Approve),
        make_output(AgentName::Balthasar, Verdict::Approve),
        make_output(AgentName::Caspar, Verdict::Reject),
    ]);
    assert!(t.majority_summary.contains("Melchior: Melchior summary"));
    assert!(t.majority_summary.contains("Balthasar: Balthasar summary"));
    assert!(t.majority_summary.contains(" | "));
    assert!(!t.majority_summary.contains("Caspar summary"));
    assert_eq!(t.majority_summary, "Melchior: Melchior summary | Balthasar: Balthasar summary");
}

#[test]
fn test_majority_summary_uses_display_name_capitalized() {
    let t = tally(&[
        make_output(AgentName::Melchior, Verdict::Approve),
        make_output(AgentName::Balthasar, Verdict::Approve),
    ]);
    assert!(t.majority_summary.contains("Melchior:"));
    assert!(t.majority_summary.contains("Balthasar:"));
    assert!(!t.majority_summary.contains("melchior:"));
    assert!(!t.majority_summary.contains("balthasar:"));
}

#[test]
fn test_conditions_extracted_from_conditional_agents() {
    let t = tally(&[
        make_output(AgentName::Melchior, Verdict::Approve),
        make_output(AgentName::Balthasar, Verdict::Conditional),
        make_output(AgentName::Caspar, Verdict::Reject),
    ]);
    assert_eq!(t.conditions.len(), 1);
    assert_eq!(t.conditions[0].agent, AgentName::Balthasar);
    assert_eq!(t.conditions[0].condition, "Balthasar summary");
}

#[test]
fn test_conditions_use_summary_field_not_recommendation_field() {
    let mut agent = make_output(AgentName::Melchior, Verdict::Conditional);
    agent.summary = "Melchior condition summary".to_string();
    agent.recommendation = "Melchior detailed recommendation".to_string();
    let support = make_output(AgentName::Balthasar, Verdict::Approve);
    let t = tally(&[agent, support]);
    assert_eq!(t.conditions.len(), 1);
    assert_eq!(t.conditions[0].condition, "Melchior condition summary");
    assert_ne!(t.conditions[0].condition, "Melchior detailed recommendation");
}

#[test]
fn test_conditions_are_distinct_from_recommendations_section() {
    let mut agent = make_output(AgentName::Balthasar, Verdict::Conditional);
    agent.summary = "Short condition summary".to_string();
    agent.recommendation = "Long detailed recommendation text".to_string();
    let support = make_output(AgentName::Melchior, Verdict::Approve);
    let t = tally(&[agent, support]);
    assert_eq!(t.conditions.len(), 1);
    assert_eq!(t.conditions[0].condition, "Short condition summary");
    assert_eq!(
        recommendation_of(&t, AgentName::Balthasar),
        "Long detailed recommendation text"
    );
    assert_ne!(t.conditions[0].condition, recommendation_of(&t, AgentName::Balthasar));
}

#[test]
fn test_recommendations_includes_all_agents() {
    let t = tally(&[
        make_output(AgentName::Melchior, Verdict::Approve),
        make_output(AgentName::Balthasar, Verdict::Approve),
        make_output(AgentName::Caspar, Verdict::Reject),
    ]);
    assert_eq!(t.recommendations.len(), 3);
    for a in [AgentName::Melchior, AgentName::Balthasar, AgentName::Caspar] {
        assert_eq!(recommendation_of(&t, a), format!("{} recommendation", a.display_name()));
    }
}

#[test]
fn test_consensus_config_enforces_min_agents_at_least_one() {
    let engine = ConsensusEngine::new(0);
    assert_eq!(engine.min_agents(), 1);
    let agents = vec![make_output(AgentName::Melchior, Verdict::Approve)];
    assert!(engine.tally(&agents).is_ok());
}

#[test]
fn the_default_engine_requires_two_agents() {
    assert_eq!(ConsensusEngine::default().min_agents(), 2);
}

#[test]
fn test_votes_map_contains_all_agents() {
    let t = tally(&[
        make_output(AgentName::Melchior, Verdict::Approve),
        make_output(AgentName::Balthasar, Verdict::Reject),
        make_output(AgentName::Caspar, Verdict::Conditional),
    ]);
    assert_eq!(t.votes.len(), 3);
    assert_eq!(vote_of(&t, AgentName::Melchior), Verdict::Approve);
    assert_eq!(vote_of(&t, AgentName::Balthasar), Verdict::Reject);
    assert_eq!(vote_of(&t, AgentName::Caspar), Verdict::Conditional);
}

#[test]
fn test_tiebreak_by_agent_name_ordering() {
    let t = tally(&[
        make_output(AgentName::Balthasar, Verdict::Approve),
        make_output(AgentName::Melchior, Verdict::Reject),
    ]);
    assert_eq!(t.approve_count, 1);
    assert_eq!(t.reject_count, 1);
    assert_eq!(t.majority, Verdict::Approve, "Balthasar ranks first and approves");
    let (label, verdict) = consensus_label(ScoreClass::Tie, 1, 1, false, 2);
    assert_eq!(label, "HOLD -- TIE");
    assert_eq!(verdict, Verdict::Reject);
}

#[test]
fn a_tie_goes_to_the_side_of_the_first_ranked_agent() {
    let t = tally(&[
        make_output(AgentName::Caspar, Verdict::Reject),
        make_output(AgentName::Balthasar, Verdict::Conditional),
    ]);
    assert_eq!(t.majority, Verdict::Approve, "Balthasar ranks before Caspar");
    assert!(t.has_conditional);
    assert_eq!(t.dissent.len(), 1);
    assert_eq!(t.dissent[0].agent, AgentName::Caspar);
    assert_eq!(t.dissent[0].reasoning, "Caspar reasoning");
}

#[test]
fn the_counts_put_conditional_on_the_approving_side() {
    let t = tally(&[
        make_output(AgentName::Melchior, Verdict::Approve),
        make_output(AgentName::Balthasar, Verdict::Conditional),
        make_output(AgentName::Caspar, Verdict::Reject),
    ]);
    assert_eq!((t.approve_count, t.reject_count), (2, 1));
    assert_eq!(t.majority, Verdict::Approve);
    assert_eq!(t.dissent.len(), 1);
    assert_eq!(t.dissent[0].agent, AgentName::Caspar);
}

// ---------------------------------------------------------------------------
// Labels
// ---------------------------------------------------------------------------

#[test]
fn the_labels_name_the_counts() {
    assert_eq!(consensus_label(ScoreClass::StrongGo, 3, 0, false, 3).0, "STRONG GO");
    assert_eq!(consensus_label(ScoreClass::StrongNoGo, 0, 3, false, 3).0, "STRONG NO-GO");
    assert_eq!(consensus_label(ScoreClass::Positive, 2, 1, false, 3).0, "GO (2-1)");
    assert_eq!(consensus_label(ScoreClass::Positive, 2, 1, true, 3).0, "GO WITH CAVEATS (2-1)");
    assert_eq!(consensus_label(ScoreClass::Negative, 1, 2, false, 3).0, "HOLD (2-1)");
    assert_eq!(consensus_label(ScoreClass::Negative, 1, 1, true, 2).0, "HOLD (1-1)");
}

#[test]
fn a_degraded_run_never_reads_strong() {
    assert_eq!(
        consensus_label(ScoreClass::StrongGo, 2, 0, false, 2),
        ("GO (2-0)".to_string(), Verdict::Approve)
    );
    assert_eq!(
        consensus_label(ScoreClass::StrongNoGo, 0, 2, false, 2),
        ("HOLD (2-0)".to_string(), Verdict::Reject)
    );
}

#[test]
fn the_verdict_follows_the_side_of_zero() {
    for (class, expected) in [
        (ScoreClass::StrongGo, Verdict::Approve),
        (ScoreClass::Positive, Verdict::Approve),
        (ScoreClass::Tie, Verdict::Reject),
        (ScoreClass::Negative, Verdict::Reject),
        (ScoreClass::StrongNoGo, Verdict::Reject),
    ] {
        assert_eq!(consensus_label(class, 1, 1, false, 3).1, expected, "{class:?}");
    }
}

#[test]
fn a_unanimous_approval_has_no_dissent() {
    let t = tally(&[
        make_output(AgentName::Melchior, Verdict::Approve),
        make_output(AgentName::Balthasar, Verdict::Conditional),
        make_output(AgentName::Caspar, Verdict::Approve),
    ]);
    assert_eq!(t.majority, Verdict::Approve);
    assert!(t.dissent.is_empty());
    assert_eq!((t.approve_count, t.reject_count), (3, 0));
}

// ---------------------------------------------------------------------------
// Input order
// ---------------------------------------------------------------------------

#[test]
fn reordering_the_outputs_changes_no_count_vote_or_majority() {
    let m = make_output(AgentName::Melchior, Verdict::Approve);
    let b = make_output(AgentName::Balthasar, Verdict::Reject);
    let c = make_output(AgentName::Caspar, Verdict::Conditional);
    let one = tally(&[m.clone(), b.clone(), c.clone()]);
    let two = tally(&[c, m, b]);
    assert_eq!(one.approve_count, two.approve_count);
    assert_eq!(one.reject_count, two.reject_count);
    assert_eq!(one.majority, two.majority);
    assert_eq!(one.has_conditional, two.has_conditional);
    for agent in [AgentName::Melchior, AgentName::Balthasar, AgentName::Caspar] {
        assert_eq!(vote_of(&one, agent), vote_of(&two, agent));
        assert_eq!(recommendation_of(&one, agent), recommendation_of(&two, agent));
    }
}

#[test]
fn a_tie_is_broken_the_same_way_whatever_the_order() {
    let m = make_output(AgentName::Melchior, Verdict::Approve);
    let c = make_output(AgentName::Caspar, Verdict::Reject);
    assert_eq!(tally(&[m.clone(), c.clone()]).majority, Verdict::Reject);
    assert_eq!(tally(&[c, m]).majority, Verdict::Reject);
}

// ---------------------------------------------------------------------------
// Labels of whole runs. The class the floating-point score falls in is given
// (it is computed outside the library); the rest comes from the tally.
// ---------------------------------------------------------------------------

fn label(verdicts: &[(AgentName, Verdict)], class: ScoreClass) -> (String, Verdict, Tally) {
    let agents: Vec<AgentOutput> = verdicts.iter().map(|(a, v)| make_output(*a, *v)).collect();
    let t = tally(&agents);
    let (l, v) = consensus_label(class, t.approve_count, t.reject_count, t.has_conditional, agents.len());
    (l, v, t)
}

use AgentName::{Balthasar as B, Caspar as C, Melchior as M};
use Verdict::{Approve as A, Conditional as K, Reject as R};

#[test]
fn test_unanimous_approve_produces_strong_go() {
    let (l, v, _) = label(&[(M, A), (B, A), (C, A)], ScoreClass::StrongGo);
    assert_eq!(l, "STRONG GO");
    assert_eq!(v, Verdict::Approve);
}

#[test]
fn test_two_approve_one_reject_produces_go_2_1() {
    let (l, v, t) = label(&[(M, A), (B, A), (C, R)], ScoreClass::Positive);
    assert_eq!(l, "GO (2-1)");
    assert_eq!(v, Verdict::Approve);
    assert_eq!(t.dissent.len(), 1);
    assert_eq!(t.dissent[0].agent, AgentName::Caspar);
}

#[test]
fn test_approve_conditional_reject_produces_go_with_caveats() {
    let (l, v, t) = label(&[(M, A), (B, K), (C, R)], ScoreClass::Positive);
    assert_eq!(l, "GO WITH CAVEATS (2-1)");
    assert_eq!(v, Verdict::Approve);
    assert!(!t.conditions.is_empty());
    assert_eq!(t.conditions[0].agent, AgentName::Balthasar);
}

#[test]
fn test_go_with_caveats_three_conditionals_unanimous() {
    let (l, v, _) = label(&[(M, K), (B, K), (C, K)], ScoreClass::Positive);
    assert_eq!(l, "GO WITH CAVEATS (3-0)");
    assert_eq!(v, Verdict::Approve);
}

#[test]
fn test_go_with_caveats_two_conditionals_one_approve() {
    let (l, v, _) = label(&[(M, K), (B, K), (C, A)], ScoreClass::Positive);
    assert_eq!(l, "GO WITH CAVEATS (3-0)");
    assert_eq!(v, Verdict::Approve);
}

#[test]
fn test_go_with_caveats_two_conditionals_one_reject() {
    let (l, v, _) = label(&[(M, K), (B, K), (C, R)], ScoreClass::Tie);
    assert_eq!(l, "HOLD -- TIE");
    assert_eq!(v, Verdict::Reject);
}

#[test]
fn test_go_with_caveats_degraded_two_conditionals() {
    let (l, v, _) = label(&[(M, K), (B, K)], ScoreClass::Positive);
    assert_eq!(l, "GO WITH CAVEATS (2-0)");
    assert_eq!(v, Verdict::Approve);
}

#[test]
fn test_go_with_caveats_degraded_one_conditional_one_approve() {
    let (l, v, _) = label(&[(M, K), (B, A)], ScoreClass::Positive);
    assert_eq!(l, "GO WITH CAVEATS (2-0)");
    assert_eq!(v, Verdict::Approve);
}

#[test]
fn test_degraded_one_conditional_one_reject_produces_hold_1_1() {
    let (l, v, _) = label(&[(M, K), (B, R)], ScoreClass::Negative);
    assert_eq!(l, "HOLD (1-1)");
    assert_eq!(v, Verdict::Reject);
}

#[test]
fn test_score_just_above_epsilon_classifies_as_go_with_caveats() {
    let (l, v, _) = label(&[(M, A), (B, K), (C, R)], ScoreClass::Positive);
    assert_eq!(l, "GO WITH CAVEATS (2-1)");
    assert_eq!(v, Verdict::Approve);
}

#[test]
fn test_score_just_below_epsilon_classifies_as_hold() {
    let (l, v, _) = label(&[(M, A), (B, K), (C, R)], ScoreClass::Tie);
    assert_eq!(l, "HOLD -- TIE");
    assert_eq!(v, Verdict::Reject);
}

#[test]
fn test_unanimous_reject_produces_strong_no_go() {
    let (l, v, _) = label(&[(M, R), (B, R), (C, R)], ScoreClass::StrongNoGo);
    assert_eq!(l, "STRONG NO-GO");
    assert_eq!(v, Verdict::Reject);
}

#[test]
fn test_tie_with_two_agents_produces_hold_tie() {
    let (l, v, _) = label(&[(M, A), (C, R)], ScoreClass::Tie);
    assert_eq!(l, "HOLD -- TIE");
    assert_eq!(v, Verdict::Reject);
}

#[test]
fn test_degraded_mode_caps_strong_go_to_go() {
    let (l, _, _) = label(&[(M, A), (B, A)], ScoreClass::StrongGo);
    assert_eq!(l, "GO (2-0)");
    assert_ne!(l, "STRONG GO");
}

#[test]
fn test_degraded_mode_caps_strong_no_go_to_hold() {
    let (l, _, _) = label(&[(M, R), (B, R)], ScoreClass::StrongNoGo);
    assert_eq!(l, "HOLD (2-0)");
    assert_ne!(l, "STRONG NO-GO");
}

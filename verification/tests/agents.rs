use smatelcom::agents::{
    agent_fallback_response, extract_field, extract_policy_citation, judge_fallback_response, judge_decision,
    parse_judge, parse_opinion, resolve_perf_security_conflict, risk_from_str, safety_gate, truncate,
    validate_intent, AgentOpinion, ConflictResolution,
};
use smatelcom::error::SmaError;
use smatelcom::guardrails::RiskLevel;
use smatelcom::commands::risk_label;

fn opinions() -> Vec<AgentOpinion> {
    vec![
        AgentOpinion {
            agent: "Performance Agent".into(),
            analysis: "Congestion high".into(),
            recommendation: "Increase Tx Power on RAN-North".into(),
            confidence_milli: 800,
        },
        AgentOpinion {
            agent: "Security Agent".into(),
            analysis: "Potential interference and ACL breach risk".into(),
            recommendation: "Cap power and monitor interference".into(),
            confidence_milli: 900,
        },
    ]
}

#[test]
fn security_wins_on_aggressive_perf() {
    let opinions = opinions();
    let rag = "Core safety policy: must not increase transmit power without HITL approval.";
    let r = resolve_perf_security_conflict(&opinions, rag, rag);
    assert!(r.conflict_detected);
    assert_eq!(r.winner, "Security Agent");
}

#[test]
fn policy_exception_lets_performance_win() {
    let rag = "Operators are authorized to relieve congestion above the threshold.";
    let r = resolve_perf_security_conflict(&opinions(), rag, "cite");
    assert!(r.conflict_detected);
    assert_eq!(r.winner, "Performance Agent");
    assert_eq!(r.loser, "Security Agent");
    assert_eq!(r.priority_applied, "Compliance exception via RAG policy");
    assert!(r.rationale.ends_with("Citing: cite"));
}

#[test]
fn no_conflict_without_security_opinion() {
    let ops = vec![opinions().remove(0)];
    let r = resolve_perf_security_conflict(&ops, "", "p");
    assert!(!r.conflict_detected);
    assert_eq!(r.winner, "Consensus");
    assert_eq!(r.rationale, "Insufficient agent outputs for conflict analysis.");
    assert_eq!(r.policy_citation, "p");
}

#[test]
fn no_conflict_when_performance_is_mild() {
    let mut ops = opinions();
    ops[0].recommendation = "Tune scheduler weights".into();
    ops[0].analysis = "Load is fine".into();
    let r = resolve_perf_security_conflict(&ops, "", "p");
    assert!(!r.conflict_detected);
    assert_eq!(r.rationale, "No hard Performance↔Security conflict detected; Judge may synthesize.");
}

#[test]
fn extract_field_reads_first_matching_line() {
    let raw = "intro\n  analysis: first one  \nANALYSIS: second\n";
    assert_eq!(extract_field(raw, "ANALYSIS"), Some("first one".to_string()));
    assert_eq!(extract_field(raw, "RISK"), None);
}

#[test]
fn parse_opinion_falls_back_on_raw_text() {
    let o = parse_opinion("Topology Agent", "free text without fields", 500);
    assert_eq!(o.analysis, "free text without fields");
    assert_eq!(o.recommendation, "No recommendation");
    assert_eq!(o.confidence_milli, 500);
}

#[test]
fn parse_judge_defaults() {
    let (s, c, l, r, w) = parse_judge("SUMMARY: ok\nRISK: High");
    assert_eq!(s, "ok");
    assert_eq!(c, "optimize threshold for edge cell throughput");
    assert_eq!(l, "Judge synthesis");
    assert_eq!(r, "High");
    assert_eq!(w, "");
}

#[test]
fn risk_from_str_reads_levels() {
    assert_eq!(risk_from_str(" critical "), RiskLevel::Critical);
    assert_eq!(risk_from_str("LOW"), RiskLevel::Low);
    assert_eq!(risk_from_str("unclear"), RiskLevel::Medium);
}

#[test]
fn truncate_marks_cut() {
    assert_eq!(truncate("abcdef", 3), "abc…");
    assert_eq!(truncate("abc", 3), "abc");
}

#[test]
fn citation_skips_empty_and_notice_lines() {
    let c = extract_policy_citation("\n[kb.md]\nNo relevant stuff\n  Rule one.  \nRule two.\nRule three.\nRule four.\n");
    assert_eq!(c, "[kb.md] Rule one. Rule two. Rule three.");
    assert_eq!(
        extract_policy_citation("No relevant knowledge-base passages found."),
        "No specific policy chunk retrieved — default to Security/Stability priority."
    );
}

#[test]
fn judge_cannot_override_security_win() {
    let ops = opinions();
    let rag = "must not increase transmit power";
    let c = resolve_perf_security_conflict(&ops, rag, "policy text");
    let v = judge_decision(&ops, &c, "SUMMARY: go fast\nCOMMAND: boost everything\nLOGIC: speed\nRISK: Low\nWINNER: Performance Agent");
    assert_eq!(v.proposed_command, "Cap power and monitor interference");
    assert_eq!(v.conflict_resolution.winner, "Security Agent");
    assert!(v.judge_summary.starts_with("Conflict resolved: Security Agent preferred over Performance Agent. "));
    assert!(v.decision_logic.starts_with("speed\n\n[Deterministic hierarchy] Security Agent beat Performance Agent because "));
    assert!(v.decision_logic.ends_with(". Policy citation: \"policy text\""));
    assert_eq!(v.risk_hint, "Low");
}

#[test]
fn judge_winner_applies_without_conflict() {
    let c = resolve_perf_security_conflict(&vec![], "", "p");
    let v = judge_decision(&vec![], &c, "SUMMARY: s\nCOMMAND: show status\nWINNER: Topology Agent");
    assert_eq!(v.proposed_command, "show status");
    assert_eq!(v.conflict_resolution.winner, "Topology Agent");
    assert_eq!(v.judge_summary, "s");
}

#[test]
fn safety_gate_statuses() {
    let g = safety_gate("optimize threshold for cell edge throughput", "", "Low");
    assert_eq!(g.status, "auto_approved");
    assert_eq!(g.risk, RiskLevel::Low);
    let g = safety_gate("optimize threshold for cell edge throughput", "", "High");
    assert_eq!(g.status, "pending_hitl");
    assert_eq!(g.risk, RiskLevel::High);
    assert_eq!(g.lint.risk, RiskLevel::High);
    assert!(g.lint.requires_hitl);
    let g = safety_gate("shutdown core_router cr-01", "", "Low");
    assert_eq!(g.status, "blocked_by_safety");
    assert_eq!(g.risk, RiskLevel::Critical);
}

#[test]
fn fallback_answers() {
    assert_eq!(
        agent_fallback_response("timeout"),
        "ANALYSIS: Agent offline (timeout). Using heuristic fallback.\nRECOMMENDATION: observe and collect more telemetry\nCONFIDENCE: 0.35"
    );
    let c = ConflictResolution {
        conflict_detected: false,
        winner: "Consensus".into(),
        loser: "—".into(),
        priority_applied: "x".into(),
        policy_citation: "p".into(),
        rationale: "r".into(),
    };
    let j = judge_fallback_response(&opinions(), &c);
    assert!(j.ends_with("RISK: Low\nWINNER: Consensus"));
    let mut c2 = c.clone();
    c2.conflict_detected = true;
    let j2 = judge_fallback_response(&opinions(), &c2);
    assert_eq!(
        j2,
        "SUMMARY: Conflict resolved in favor of Security/Stability over Performance.\nCOMMAND: Cap power and monitor interference\nLOGIC: r Policy: p\nRISK: Medium\nWINNER: Security Agent"
    );
}

#[test]
fn empty_intent_refused() {
    match validate_intent("   ") {
        Err(SmaError::InvalidIntent(m)) => assert_eq!(m, "Network intent cannot be empty"),
        _ => panic!("expected an invalid intent"),
    }
    assert_eq!(validate_intent("  reduce latency ").ok(), Some("reduce latency".to_string()));
}

#[test]
fn extract_field_cuts_key_bytes() {
    assert_eq!(extract_field("analysıs: foo", "ANALYSIS"), Some(": foo".to_string()));
    assert_eq!(extract_field("Risk: High", "RISK"), Some("High".to_string()));
}

#[test]
fn risk_labels_read_back() {
    for r in [RiskLevel::Low, RiskLevel::Medium, RiskLevel::High, RiskLevel::Critical] {
        assert_eq!(risk_from_str(&risk_label(r)), r);
    }
}

use smatelcom::guardrails::{lint_command, lint_with_context, max_risk, RiskLevel};

#[test]
fn blocks_core_router_shutdown() {
    let r = lint_command("shutdown core_router cr-01");
    assert!(!r.allowed);
    assert_eq!(r.risk, RiskLevel::Critical);
}

#[test]
fn blocks_delete_config() {
    let r = lint_command("delete running-config on pe-west");
    assert!(!r.allowed);
}

#[test]
fn allows_simple_optimize() {
    let r = lint_command("optimize threshold for cell edge throughput");
    assert!(r.allowed);
    assert!(r.auto_approvable);
}

#[test]
fn blocks_disable_logging() {
    let r = lint_command("no logging on pe-edge");
    assert!(!r.allowed);
    assert!(r.matched_rules.iter().any(|m| m.starts_with("BL-011")));
}

#[test]
fn blocks_2fa_bypass() {
    let r = lint_command("bypass 2fa for lab operator");
    assert!(!r.allowed);
}

#[test]
fn escalates_downtown_site() {
    let r = lint_with_context(
        "optimize threshold for cell edge",
        "Reduce congestion Downtown RAN sector",
    );
    assert!(r.allowed);
    assert!(r.risk >= RiskLevel::High);
    assert!(r.requires_hitl);
    assert!(!r.auto_approvable);
}

#[test]
fn escalates_core_aggressive() {
    let r = lint_command("increase tx power on core pe-router-01");
    assert_eq!(r.risk, RiskLevel::Critical);
    assert!(r.requires_hitl);
}

#[test]
fn clean_command_reason_and_no_rules() {
    let r = lint_command("show interface status");
    assert!(r.allowed);
    assert_eq!(r.risk, RiskLevel::Low);
    assert!(r.matched_rules.is_empty());
    assert!(!r.requires_hitl);
    assert_eq!(r.reason, "No blacklist matches — eligible for graduated autonomy");
}

#[test]
fn blocked_command_is_critical_and_needs_human() {
    let r = lint_command("factory reset the lab switch");
    assert!(!r.allowed);
    assert_eq!(r.risk, RiskLevel::Critical);
    assert!(r.requires_hitl);
    assert!(!r.auto_approvable);
    assert!(r.reason.starts_with("BL-005"));
}

#[test]
fn critical_site_without_aggression_is_high() {
    let r = lint_command("show interfaces on datacenter link");
    assert!(r.allowed);
    assert_eq!(r.risk, RiskLevel::High);
    assert_eq!(r.matched_rules.len(), 1);
    assert!(r.matched_rules[0].starts_with("BR-001"));
    assert_eq!(r.reason, "Matched 1 rule(s); risk=High; HITL=true");
}

#[test]
fn context_widens_blast_radius() {
    let alone = lint_with_context("optimize threshold", "");
    let with_ctx = lint_with_context("optimize threshold", "core site");
    assert_eq!(alone.risk, RiskLevel::Low);
    assert!(with_ctx.risk >= RiskLevel::High);
}

#[test]
fn low_rule_stays_auto_approvable() {
    let r = lint_command("optimize threshold for cell edge throughput");
    assert_eq!(r.risk, RiskLevel::Low);
    assert_eq!(r.matched_rules.len(), 1);
    assert!(r.matched_rules[0].starts_with("BL-010"));
    assert_eq!(r.reason, "Matched 1 rule(s); risk=Low; HITL=false");
}

#[test]
fn more_matches_never_less_strict_example() {
    let a = lint_command("adjust qos weight");
    let b = lint_command("adjust qos weight on core");
    assert!(b.risk >= a.risk);
    assert!(!b.auto_approvable);
}

#[test]
fn max_risk_picks_higher() {
    assert_eq!(max_risk(RiskLevel::Low, RiskLevel::High), RiskLevel::High);
    assert_eq!(max_risk(RiskLevel::Critical, RiskLevel::Medium), RiskLevel::Critical);
    assert_eq!(max_risk(RiskLevel::Medium, RiskLevel::Medium), RiskLevel::Medium);
}

#[test]
fn context_never_lowers_verdict() {
    let cases = [
        ("delete running-config", "routine maintenance window"),
        ("adjust qos weight", "datacenter boost"),
        ("set interface description", "any context at all"),
        ("bypass 2fa", ""),
    ];
    for (command, context) in cases {
        let a = lint_command(command);
        let b = lint_with_context(command, context);
        assert!(b.risk >= a.risk);
        assert!(a.allowed || !b.allowed);
        assert!(a.auto_approvable || !b.auto_approvable);
        for m in a.matched_rules.iter().filter(|m| m.starts_with("BL-")) {
            assert!(b.matched_rules.contains(m));
        }
    }
    let blocked = lint_with_context("delete running-config", "routine maintenance window");
    assert!(!blocked.allowed);
    assert!(blocked.matched_rules[0].starts_with("BL-002"));
}

use smatelcom::commands::{
    approve_action, conflict_notes, decision_from_status, execution_clearance, greet, lint_command,
    northbound_commit, northbound_dry_run, parse_protocol, reject_action, risk_label, settle_run,
    simulate_vendor_exec, ssh_exec_lab, translate_intent, translate_vendor_payloads, ApprovalRefusal,
    NorthboundRequest,
};
use smatelcom::agents::ConflictResolution;
use smatelcom::db::AuditLogEntry;
use smatelcom::drivers::NorthboundProtocol;
use smatelcom::guardrails::{lint_command as lint, RiskLevel};
use smatelcom::hitl::{HitlRegistry, PendingHitlAction};
use smatelcom::network_connector::ExecPlan;
use smatelcom::rag::KnowledgeBase;
use smatelcom::roi::RoiTracker;

fn request(cmd: &str) -> NorthboundRequest {
    NorthboundRequest { command: cmd.into(), protocol: None, target: None, dry_run: None, action_id: None }
}

fn pending(id: &str, cmd: &str) -> PendingHitlAction {
    PendingHitlAction {
        id: id.into(),
        proposed_command: cmd.into(),
        intent: "edge cell".into(),
        decision_logic: "l".into(),
        risk: RiskLevel::Medium,
    }
}

#[test]
fn greets_operator() {
    assert_eq!(greet("Ana"), "SmarTelcom online — welcome, Ana.");
}

#[test]
fn status_and_risk_labels() {
    assert_eq!(decision_from_status("auto_approved"), "Auto-Approved");
    assert_eq!(decision_from_status("pending_hitl"), "HITL-Pending");
    assert_eq!(decision_from_status("blocked_by_safety"), "Blocked");
    assert_eq!(decision_from_status("other"), "Unknown");
    assert_eq!(risk_label(RiskLevel::High), "High");
    assert_eq!(parse_protocol(Some("gnmi")), NorthboundProtocol::Gnmi);
    assert_eq!(parse_protocol(Some("GNMI")), NorthboundProtocol::Netconf);
    assert_eq!(parse_protocol(None), NorthboundProtocol::Netconf);
}

#[test]
fn dry_run_errors_and_success() {
    assert_eq!(northbound_dry_run(request("   ")).unwrap_err(), "Command cannot be empty");
    let e = northbound_dry_run(request("shutdown core_router cr-01")).unwrap_err();
    assert!(e.starts_with("Dry-run blocked by Safety Linter: BL-001"));
    let r = northbound_dry_run(request("  optimize threshold  ")).unwrap();
    assert_eq!(r.status, "dry_run");
    assert_eq!(r.payload.target, "lab-ne-01");
    assert!(r.payload.dry_run);
}

#[test]
fn commit_needs_hitl_clearance() {
    let mut roi = RoiTracker::new();
    let mut hitl = HitlRegistry::new();
    let e = northbound_commit(&mut roi, &hitl, request("adjust qos weight")).unwrap_err();
    assert_eq!(e, "Commit requires HITL Approve first (risk=Medium)");
    hitl.approve_command("adjust qos weight".into());
    let r = northbound_commit(&mut roi, &hitl, request("adjust qos weight")).unwrap();
    assert_eq!(r.status, "commit_confirm");
    let e = northbound_commit(&mut roi, &hitl, request("wipe startup-config")).unwrap_err();
    assert!(e.starts_with("Commit blocked by Safety Linter: "));
    assert_eq!(roi.snapshot().critical_risks_averted, 1);
}

#[test]
fn operator_lint_counts_blocks() {
    let mut roi = RoiTracker::new();
    let r = lint_command(&mut roi, "bypass 2fa for lab operator");
    assert!(!r.allowed);
    let r2 = lint_command(&mut roi, "optimize threshold");
    assert!(r2.allowed);
    let c = roi.snapshot();
    assert_eq!(c.risks_mitigated, 1);
    assert_eq!(c.critical_risks_averted, 1);
}

#[test]
fn translate_intent_and_preview() {
    let mut roi = RoiTracker::new();
    let kb = KnowledgeBase::empty();
    assert_eq!(translate_intent(&mut roi, &kb, " ").unwrap_err(), "Intent cannot be empty");
    let t = translate_intent(&mut roi, &kb, "show status").unwrap();
    assert_eq!(t.len(), 2);
    let e = translate_intent(&mut roi, &kb, "factory reset now").unwrap_err();
    assert_eq!(e, "Vendor CLI blocked by Safety Linter (ciscoios): BL-005: Forbidden: factory reset / erase startup");
    assert_eq!(roi.snapshot().risks_mitigated, 1);
    assert_eq!(
        simulate_vendor_exec(&mut roi, &kb, "core check").unwrap_err(),
        "SSH sim requires HITL (risk=High): run Multi-Agent Pipeline and Approve first. Matched 1 rule(s); risk=High; HITL=true"
    );
    let v = simulate_vendor_exec(&mut roi, &kb, "show status").unwrap();
    assert_eq!(v.len(), 2);
    assert_eq!(v[0].target_id, "pe-cisco-01");
    assert!(v[0].simulated);
}

#[test]
fn vendor_payloads_gated() {
    assert_eq!(translate_vendor_payloads("").unwrap_err(), "Command cannot be empty");
    assert!(translate_vendor_payloads("erase startup on pe").unwrap_err().starts_with("Translation blocked by Safety Linter: "));
    assert_eq!(translate_vendor_payloads("monitor state").unwrap().len(), 3);
}

#[test]
fn ssh_lab_gates_and_targets() {
    let mut roi = RoiTracker::new();
    let hitl = HitlRegistry::new();
    let e = ssh_exec_lab(&mut roi, &hitl, "pe-cisco-01", "delete running-config").unwrap_err();
    assert!(e.starts_with("SSH blocked by Safety Linter: "));
    assert_eq!(roi.snapshot().risks_mitigated, 1);
    let e = ssh_exec_lab(&mut roi, &hitl, "nowhere", "show version").unwrap_err();
    assert_eq!(e, "Unknown target nowhere");
    let (t, plan) = ssh_exec_lab(&mut roi, &hitl, "agg-huawei-02", "display version").unwrap();
    assert_eq!(t.hostname, "agg-sw-02");
    match plan {
        ExecPlan::Done(r) => assert!(r.output.starts_with("<agg-sw-02> Huawei")),
        _ => panic!("lab devices are simulated"),
    }
}

#[test]
fn approve_then_second_approve_unknown() {
    let mut roi = RoiTracker::new();
    let mut hitl = HitlRegistry::new();
    hitl.register(pending("act-1", "adjust qos weight"));
    let o = approve_action(&mut hitl, &mut roi, "act-1", Some("gnmi"), Some(true)).unwrap();
    assert_eq!(o.decision, "approved");
    assert_eq!(o.command.as_deref(), Some("adjust qos weight"));
    let d = o.driver.unwrap();
    assert_eq!(d.payload.protocol, NorthboundProtocol::Gnmi);
    assert_eq!(o.message, format!("HITL-Approved · {}", d.message));
    match approve_action(&mut hitl, &mut roi, "act-1", None, None) {
        Err(ApprovalRefusal::UnknownAction(m)) => assert_eq!(m, "Unknown or already resolved HITL action act-1"),
        _ => panic!("second approval must be refused"),
    }
}

#[test]
fn approve_denied_by_linter() {
    let mut roi = RoiTracker::new();
    let mut hitl = HitlRegistry::new();
    hitl.register(pending("act-2", "no logging on pe-edge"));
    match approve_action(&mut hitl, &mut roi, "act-2", None, None) {
        Err(ApprovalRefusal::DeniedByLinter(m)) => assert!(m.starts_with("Approval denied by Safety Linter: BL-011")),
        _ => panic!("linter must deny"),
    }
    assert_eq!(roi.snapshot().critical_risks_averted, 1);
    assert!(hitl.take("act-2").is_none());
}

#[test]
fn reject_discards_command() {
    let mut hitl = HitlRegistry::new();
    hitl.register(pending("act-3", "adjust qos weight"));
    let o = reject_action(&mut hitl, "act-3").unwrap();
    assert_eq!(o.message, "Rejected — command discarded: adjust qos weight");
    assert!(o.lint.is_none() && o.driver.is_none());
    assert_eq!(reject_action(&mut hitl, "act-3").unwrap_err(), "Unknown or already resolved HITL action act-3");
}

fn entry(id: &str, cmd: &str, decision: &str) -> AuditLogEntry {
    AuditLogEntry {
        id: id.into(),
        timestamp: "t".into(),
        intent: "i".into(),
        final_command: cmd.into(),
        risk_level: "Medium".into(),
        decision: decision.into(),
        conflict_resolution: None,
        payload_preview: None,
        agent_logs: None,
        policy_citation: None,
        ai_duration_ms: 0,
    }
}

#[test]
fn execution_clearance_uses_history() {
    let hitl = HitlRegistry::new();
    let none: Vec<AuditLogEntry> = vec![];
    assert_eq!(
        execution_clearance(&hitl, &none, "x", "adjust qos weight").unwrap_err(),
        "Execute requires Auto-Approved or HITL-Approved action first"
    );
    let hist = vec![entry("x", "other", "HITL-Approved")];
    assert!(execution_clearance(&hitl, &hist, "x", "adjust qos weight").is_ok());
    let pending_only = vec![entry("x", "adjust qos weight", "HITL-Pending")];
    assert!(execution_clearance(&hitl, &pending_only, "x", "adjust qos weight").is_err());
    assert!(execution_clearance(&hitl, &none, "x", "optimize threshold").is_ok());
    assert!(execution_clearance(&hitl, &none, "x", "format flash:").unwrap_err().starts_with("Execute blocked by Safety Linter: "));
}

#[test]
fn settle_run_books_outcomes() {
    let mut roi = RoiTracker::new();
    let mut hitl = HitlRegistry::new();
    let l = lint("adjust qos weight");
    assert!(!settle_run(&mut hitl, &mut roi, pending("r1", "adjust qos weight"), &l, "pending_hitl", 10));
    assert_eq!(hitl.take("r1").unwrap().proposed_command, "adjust qos weight");
    let l2 = lint("optimize threshold");
    assert!(settle_run(&mut hitl, &mut roi, pending("r2", "optimize threshold"), &l2, "auto_approved", 10));
    assert!(hitl.is_cleared("optimize threshold"));
    let l3 = lint("shutdown core_router cr-01");
    assert!(!settle_run(&mut hitl, &mut roi, pending("r3", "shutdown core_router cr-01"), &l3, "blocked_by_safety", 10));
    let c = roi.snapshot();
    assert_eq!(c.intents_processed, 3);
    assert_eq!(c.auto_approved, 1);
    assert_eq!(c.risks_mitigated, 2);
    assert_eq!(c.critical_risks_averted, 1);
}

#[test]
fn conflict_notes_format() {
    let mut c = ConflictResolution {
        conflict_detected: true,
        winner: "Security Agent".into(),
        loser: "Performance Agent".into(),
        priority_applied: "p".into(),
        policy_citation: "cite".into(),
        rationale: "why".into(),
    };
    assert_eq!(conflict_notes(&c), "Security Agent beat Performance Agent | why | cite");
    c.conflict_detected = false;
    assert_eq!(conflict_notes(&c), "why");
}

use smatelcom::db::{audit_row_id, impact_from_row, merge_with_roi, minutes_saved, search_pattern, update_outcome, NewAuditLog};
use smatelcom::roi::RoiTracker;

fn new_log(id: &str) -> NewAuditLog {
    NewAuditLog {
        id: id.into(),
        intent: "i".into(),
        final_command: "c".into(),
        risk_level: "Low".into(),
        decision: "Auto-Approved".into(),
        conflict_resolution: "".into(),
        payload_preview: "".into(),
        agent_logs: "".into(),
        policy_citation: "".into(),
        ai_duration_ms: 5,
    }
}

#[test]
fn audit_ids_and_patterns() {
    assert_eq!(audit_row_id(&new_log("abc")), "abc");
    assert_eq!(audit_row_id(&new_log("")).len(), 36);
    assert_eq!(search_pattern("  bgp "), Some("%bgp%".to_string()));
    assert_eq!(search_pattern("   "), None);
    assert_eq!(update_outcome("r1", 0).unwrap_err(), "No audit_logs row for id r1");
    assert_eq!(update_outcome("r1", 2).unwrap(), 2);
}

#[test]
fn impact_report_counts() {
    let c = impact_from_row(10, Some(4), None, Some(2), Some(1));
    assert_eq!((c.intents_processed, c.auto_approved, c.hitl_pending_or_resolved, c.blocked, c.critical_risks_averted), (10, 4, 0, 2, 1));
    let mut roi = RoiTracker::new();
    for _ in 0..12 {
        roi.record_intent(10, false);
    }
    let m = merge_with_roi(c, roi.snapshot());
    assert_eq!(m.intents_processed, 12);
    assert_eq!(m.auto_approved, 4);
    assert_eq!(minutes_saved(m), 60);
}

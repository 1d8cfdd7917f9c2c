use smatelcom::roi::RoiTracker;

#[test]
fn roi_counts_intents_and_savings() {
    let mut roi = RoiTracker::new();
    roi.record_intent(1_000, false);
    roi.record_intent(3_000_000, true);
    let c = roi.snapshot();
    assert_eq!(c.intents_processed, 2);
    assert_eq!(c.total_ai_ms, 3_001_000);
    assert_eq!(c.risks_mitigated, 1);
    assert_eq!(c.saved_ms, 2_699_000);
}

#[test]
fn roi_auto_approve_and_blocks() {
    let mut roi = RoiTracker::new();
    roi.record_auto_approve();
    roi.record_block();
    roi.record_critical_block();
    let c = roi.snapshot();
    assert_eq!(c.auto_approved, 1);
    assert_eq!(c.saved_ms, 900_000);
    assert_eq!(c.risks_mitigated, 2);
    assert_eq!(c.critical_risks_averted, 1);
    assert!(c.critical_risks_averted <= c.risks_mitigated);
}

#[test]
fn roi_sequence_counts() {
    let mut roi = RoiTracker::new();
    roi.record_intent(10, true);
    roi.record_intent(20, false);
    roi.record_block();
    roi.record_critical_block();
    roi.record_auto_approve();
    let c = roi.snapshot();
    assert_eq!(c.intents_processed, 2);
    assert_eq!(c.risks_mitigated, 3);
    assert_eq!(c.critical_risks_averted, 1);
    assert_eq!(c.auto_approved, 1);
    assert_eq!(c.total_ai_ms, 30);
    assert_eq!(c.saved_ms, 2_699_990 + 2_699_980 + 900_000);
}

use smatelcom::adapters::find_device;
use smatelcom::executor::{
    commit_message, connecting_message, execution_device, payload_echo, proto_label, transaction_number,
    verify_execution, verify_only, ExecutionRequest, ValidationStatus,
};
use smatelcom::adapters::VendorBrand;

#[test]
fn device_from_request_or_command() {
    let req = ExecutionRequest { action_id: "a".into(), command: "optimize threshold".into(), device_id: Some("upf-03".into()) };
    assert_eq!(execution_device(&req).id, "dc-upf-03");
    let req2 = ExecutionRequest { action_id: "a".into(), command: "tune agg-sw-02".into(), device_id: Some("unknown".into()) };
    assert_eq!(execution_device(&req2).id, "dt-agg-02");
}

#[test]
fn console_messages() {
    let d = find_device("pe-router-01").unwrap();
    assert_eq!(connecting_message(&d), "[DEBUG] Connecting to pe-router-01 (10.0.0.11)…");
    assert_eq!(proto_label(VendorBrand::NokiaSros), "JSON-RPC / gNMI");
    assert_eq!(commit_message(4321), "[SUCCESS] Commit confirmed. Transaction ID: 4321");
    let echo = payload_echo("a\nb\nc\nd\ne\nf\ng\n");
    assert_eq!(echo.len(), 6);
    assert_eq!(echo[0], "  ▸ [0] a");
    assert_eq!(echo[5], "  ▸ [5] f");
}

#[test]
fn transaction_numbers_in_range() {
    assert_eq!(transaction_number(0), 1000);
    assert_eq!(transaction_number(8999), 9999);
    assert_eq!(transaction_number(9000), 1000);
}

#[test]
fn verification_decisions() {
    let d = find_device("agg-sw-02").unwrap();
    let (v, lines) = verify_execution(&d, 80, 83);
    assert_eq!(v.status, ValidationStatus::Verified);
    assert_eq!(lines[0].message, "Post-Execution Validation VERIFIED — health 80 → 83");
    let (v, lines) = verify_execution(&d, 80, 70);
    assert_eq!(v.status, ValidationStatus::DriftDetected);
    assert_eq!(v.follow_up.as_deref(), Some("ROLLBACK: restore prior candidate on agg-sw-02 and re-run Safety Linter"));
    assert_eq!(lines.len(), 2);
    let (v, _) = verify_execution(&d, 80, 77);
    assert_eq!(v.follow_up.as_deref(), Some("REFINEMENT: retune QoS weights on agg-sw-02 (site=Downtown)"));
    let r = verify_only(&d, 60, 50);
    assert_eq!(r.message, "Drift still present.");
    assert_eq!(verify_only(&d, 60, 60).status, ValidationStatus::Verified);
}

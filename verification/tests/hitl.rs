use smatelcom::guardrails::RiskLevel;
use smatelcom::hitl::{HitlRegistry, PendingHitlAction};

fn action(id: &str, cmd: &str) -> PendingHitlAction {
    PendingHitlAction {
        id: id.into(),
        proposed_command: cmd.into(),
        intent: "reduce congestion".into(),
        decision_logic: "because".into(),
        risk: RiskLevel::Medium,
    }
}

#[test]
fn take_after_register_returns_action_once() {
    let mut reg = HitlRegistry::new();
    reg.register(action("a1", "adjust qos weight"));
    reg.register(action("a2", "optimize threshold"));
    let got = reg.take("a1").unwrap();
    assert_eq!(got.proposed_command, "adjust qos weight");
    assert!(reg.take("a1").is_none());
    assert_eq!(reg.take("a2").unwrap().proposed_command, "optimize threshold");
}

#[test]
fn register_same_id_replaces() {
    let mut reg = HitlRegistry::new();
    reg.register(action("a1", "first"));
    reg.register(action("a1", "second"));
    assert_eq!(reg.take("a1").unwrap().proposed_command, "second");
    assert!(reg.take("a1").is_none());
}

#[test]
fn approved_commands_are_cleared() {
    let mut reg = HitlRegistry::new();
    assert!(!reg.is_cleared("adjust qos weight"));
    reg.approve_command("adjust qos weight".into());
    reg.approve_command("adjust qos weight".into());
    assert!(reg.is_cleared("adjust qos weight"));
    assert!(!reg.is_cleared("adjust qos"));
}

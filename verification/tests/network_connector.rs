use smatelcom::network_connector::{CommandTranslator, DeviceTarget, ExecPlan, NetworkConnector, Vendor};
use smatelcom::rag::KnowledgeBase;

#[test]
fn translation_for_congestion() {
    let kb = KnowledgeBase::empty();
    let t = CommandTranslator::translate("Reduce congestion", Vendor::CiscoIos, &kb);
    assert!(t.cli.contains("policy-map PM-EDGE-SHAPE"));
    assert_eq!(t.confidence_pct, 78);
    let all = CommandTranslator::translate_all("bgp clear", &kb);
    assert_eq!(all[0].cli, "clear ip bgp * soft");
    assert_eq!(all[1].cli, "reset bgp all soft");
}

#[test]
fn simulator_output() {
    let d = &NetworkConnector::default_lab_devices()[0];
    let r = NetworkConnector::simulate(d, "interface x\r\nshutdown");
    assert_eq!(r.output, "pe-router-01\nCisco IOS Software, Simulator\nHostname: pe-router-01\nOK — applied (interface x)");
}

#[test]
fn real_targets_go_over_ssh() {
    let t = DeviceTarget {
        id: "lab".into(),
        hostname: "h".into(),
        vendor: Vendor::Generic,
        host: "10.1.1.1".into(),
        port: 2222,
        simulate: false,
    };
    match NetworkConnector::exec(&t, "show version") {
        ExecPlan::Ssh { address, user, password } => {
            assert_eq!(address, "10.1.1.1:2222");
            assert_eq!((user.as_str(), password.as_str()), ("lab", "lab"));
        },
        _ => panic!("real target"),
    }
    let r = NetworkConnector::remote_result(&t, "show version", "v1".into());
    assert!(!r.simulated);
    assert_eq!(r.output, "v1");
}

#[test]
fn preview_pairs_each_vendor() {
    let kb = KnowledgeBase::empty();
    let p = NetworkConnector::translate_and_preview("show status", &kb);
    assert_eq!(p.len(), 2);
    assert_eq!(p[1].1.target_id, "agg-huawei-02");
}

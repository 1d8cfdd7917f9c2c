use smatelcom::drivers::{
    commit, generate_technical_payload, DriverRequest, GnmiDriver, NetconfDriver, NetworkDriver, NorthboundProtocol,
};

#[test]
fn netconf_trait_wraps_edit_config() {
    let d = NetconfDriver {
        target: "pe-01".into(),
    };
    let xml = d.generate_payload("optimize threshold");
    assert!(xml.contains("<edit-config>"));
    assert!(xml.contains("optimize threshold"));
}

#[test]
fn gnmi_trait_json() {
    let d = GnmiDriver {
        target: "amf-01".into(),
    };
    let j = d.generate_payload("observe telemetry counters");
    assert!(j.contains("intent-action"));
}

#[test]
fn select_gnmi_for_monitor() {
    let (p, _) = generate_technical_payload("monitor state on edge", "ne-1");
    assert_eq!(p, NorthboundProtocol::Gnmi);
}

#[test]
fn dry_run_does_not_commit() {
    let req = DriverRequest {
        command: "optimize threshold for edge cell".into(),
        protocol: NorthboundProtocol::Netconf,
        target: "pe-router-01".into(),
        dry_run: true,
        action_id: None,
    };
    let r = commit(&req);
    assert_eq!(r.status, "dry_run");
    assert!(r.commit_id.is_none());
}

#[test]
fn dry_run_payload_content_type() {
    let req = DriverRequest {
        command: "optimize threshold for edge cell".into(),
        protocol: NorthboundProtocol::Netconf,
        target: "pe-router-01".into(),
        dry_run: true,
        action_id: None,
    };
    let r = commit(&req);
    assert!(r.simulated && r.payload.dry_run);
    assert_eq!(r.payload.content_type, "application/yang-data+xml");
}

#[test]
fn select_netconf_for_config_change() {
    let (p, body) = generate_technical_payload("optimize threshold", "ne-1");
    assert_eq!(p, NorthboundProtocol::Netconf);
    assert!(body.contains("<edit-config>"));
}

#[test]
fn real_commit_issues_commit_id() {
    let req = DriverRequest {
        command: "optimize threshold".into(),
        protocol: NorthboundProtocol::Gnmi,
        target: "amf-01".into(),
        dry_run: false,
        action_id: Some("a-1".into()),
    };
    let r = commit(&req);
    assert_eq!(r.status, "commit_success");
    let id = r.commit_id.clone().unwrap();
    assert!(id.starts_with("cfg-"));
    assert_eq!(id.chars().count(), 12);
    assert!(r.message.contains(&id));
    assert!(r.message.starts_with("gNMI SetResponse OK on amf-01"));
    assert_eq!(r.payload.id.len(), 36);
    assert!(r.simulated);
}

#[test]
fn payload_id_and_time_forms() {
    let req = DriverRequest {
        command: "optimize threshold".into(),
        protocol: NorthboundProtocol::Netconf,
        target: "pe-01".into(),
        dry_run: true,
        action_id: None,
    };
    let r = commit(&req);
    let id: Vec<char> = r.payload.id.chars().collect();
    assert_eq!(id.len(), 36);
    assert_eq!((id[8], id[13], id[14], id[18], id[23]), ('-', '-', '4', '-', '-'));
    assert!("89ab".contains(id[19]));
    assert!(r.payload.created_at.ends_with("+00:00"));
}

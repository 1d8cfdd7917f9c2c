use smatelcom::adapters::{find_device, lab_inventory, resolve_target, translate_all_vendors, translate_for_vendor, VendorBrand};

#[test]
fn cisco_and_huawei_differ() {
    let inv = lab_inventory();
    let cisco = inv.iter().find(|d| d.vendor == VendorBrand::CiscoIosXe).unwrap();
    let hw = inv.iter().find(|d| d.vendor == VendorBrand::HuaweiVrp).unwrap();
    let a = translate_for_vendor("Set Interface Capacity 1G", cisco);
    let b = translate_for_vendor("Set Interface Capacity 1G", hw);
    assert_ne!(a.body, b.body);
    assert!(b.body.contains("huawei") || b.body.contains("ifm"));
}

#[test]
fn nokia_gnmi_json() {
    let nokia = lab_inventory()
        .into_iter()
        .find(|d| d.vendor == VendorBrand::NokiaSros)
        .unwrap();
    let p = translate_for_vendor("monitor state", &nokia);
    assert!(p.body.contains("{"));
}

#[test]
fn inventory_has_six_devices() {
    let inv = lab_inventory();
    assert_eq!(inv.len(), 6);
    assert_eq!(inv[0].id, "core-pe-01");
    assert_eq!(inv[5].hostname, "firewall-edge");
}

#[test]
fn find_device_by_hostname_case_insensitive() {
    let d = find_device("AMF-01").unwrap();
    assert_eq!(d.id, "dc-amf-01");
    assert!(find_device("no-such-box").is_none());
}

#[test]
fn resolve_target_defaults_to_core_pe() {
    assert_eq!(resolve_target("do something vague").id, "core-pe-01");
    assert_eq!(resolve_target("tune the gnodeb-441 cell").id, "ran-gnb-441");
}

#[test]
fn one_payload_per_vendor() {
    let all = translate_all_vendors("monitor state");
    assert_eq!(all.len(), 3);
    assert_eq!(all[0].vendor, VendorBrand::CiscoIosXe);
    assert_eq!(all[1].vendor, VendorBrand::HuaweiVrp);
    assert_eq!(all[2].vendor, VendorBrand::NokiaSros);
}

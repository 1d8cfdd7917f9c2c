use smatelcom::northbound::{demo_service_order, enrich_intent, hydrate_inventory, receive_external_intent};

#[test]
fn dubai_order_prefers_downtown() {
    let order = demo_service_order();
    let h = hydrate_inventory(&order);
    assert!(!h.matched_devices.is_empty());
    let sites: Vec<_> = h
        .matched_devices
        .iter()
        .map(|d| d.site_class.as_str())
        .collect();
    assert!(
        sites.iter().any(|s| s.contains("Downtown") || s.contains("RAN") || s.contains("DataCenter")),
        "expected site-relevant devices, got {sites:?}"
    );
    let enriched = enrich_intent(&order, &h);
    assert!(enriched.contains("ORDER-123"));
    assert!(enriched.contains("Dubai Mall"));
}

#[test]
fn ingress_enriches_demo_order() {
    let r = receive_external_intent(demo_service_order());
    assert_eq!(r.order.id, "ORDER-123");
    assert!(r.enriched_intent.contains("Ensure low latency for Dubai Mall"));
    assert!(r.hydration.matched_devices.len() <= 4);
}

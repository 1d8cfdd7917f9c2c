use smatelcom::telemetry::{equal_ignoring_ascii_case, link, node_matches_element, node_matches_host, seed_links, update_links, EventWindow};
use smatelcom::telemetry::{closed_loop_health, closed_loop_node_status};

#[test]
fn links_degrade_on_critical_events() {
    let mut links = seed_links();
    assert_eq!(links.len(), 7);
    update_links(&mut links, "upf-03", "critical");
    assert_eq!(links[2].status, "degraded");
    assert_eq!(links[4].status, "degraded");
    assert_eq!(links[0].status, "up");
    update_links(&mut links, "upf-03", "warning");
    assert_eq!(links[2].status, "up");
    let l = link("a", "b");
    assert_eq!((l.source.as_str(), l.target.as_str(), l.status.as_str()), ("a", "b", "up"));
}

#[test]
fn node_matching() {
    assert!(equal_ignoring_ascii_case("PE-Router-01", "pe-router-01"));
    assert!(!equal_ignoring_ascii_case("pe", "pe-"));
    assert!(node_matches_host("X", "node-amf-01", "amf-01"));
    assert!(!node_matches_host("X", "node", "amf-01"));
    assert!(node_matches_element("upf-03", "zzz", "upf-03"));
    assert!(!node_matches_element("UPF-03", "zzz", "upf-03"));
}

#[test]
fn event_window_keeps_newest_two_hundred() {
    let mut w: EventWindow<u32> = EventWindow::new();
    for i in 0..250u32 {
        w.push(i);
    }
    assert_eq!(w.len(), 200);
    let newest: Vec<u32> = w.newest_first(3).into_iter().copied().collect();
    assert_eq!(newest, vec![249, 248, 247]);
    assert_eq!(w.newest_first(1000).len(), 200);
    assert_eq!(*w.newest_first(200)[199], 50);
}

#[test]
fn closed_loop_health_steps() {
    assert_eq!(closed_loop_health(97, 0, true), (99, 0));
    assert_eq!(closed_loop_health(90, 2, true), (93, 1));
    assert_eq!(closed_loop_health(4, 2, false), (0, 3));
    assert_eq!(closed_loop_node_status(false), "warning");
}

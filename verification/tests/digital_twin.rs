use smatelcom::digital_twin::{is_milder_change, json_candidate};

#[test]
fn mild_changes() {
    assert!(is_milder_change("Optimize threshold"));
    assert!(is_milder_change("traffic SHAPE"));
    assert!(!is_milder_change("increase tx power"));
}

#[test]
fn json_span_between_braces() {
    assert_eq!(json_candidate("text {\"a\": {\"b\": 1}} tail"), Some("{\"a\": {\"b\": 1}}".to_string()));
    assert_eq!(json_candidate("no json"), None);
    assert_eq!(json_candidate("} {"), None);
}

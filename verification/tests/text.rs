use smatelcom::text::{json_escape, split_words, trim, xml_escape};
use smatelcom::error::SmaError;

#[test]
fn trimming_and_splitting() {
    assert_eq!(trim("\t a b \n"), "a b");
    assert_eq!(split_words("  one two\tthree "), vec!["one", "two", "three"]);
}

#[test]
fn escaping() {
    assert_eq!(xml_escape("a<b&c>\"'"), "a&lt;b&amp;c&gt;&quot;'");
    assert_eq!(json_escape("a\"b\\c\n"), "a\\\"b\\\\c\n");
}

#[test]
fn error_messages() {
    assert_eq!(SmaError::InvalidIntent("x".into()).message(), "Invalid intent: x");
    assert_eq!(SmaError::OllamaUnreachable("u".into(), "down".into()).message(), "Ollama unreachable at u: down");
}

#[test]
fn xml_escape_leaves_only_entities() {
    let e = xml_escape("a&<b>\"");
    assert_eq!(e, "a&amp;&lt;b&gt;&quot;");
    assert!(!e.contains('<') && !e.contains('>') && !e.contains('"'));
}

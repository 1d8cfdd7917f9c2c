use smatelcom::error::SmaError;
use smatelcom::ollama::{choose_model, generate_url, generation_text, tags_url};

fn names(v: &[&str]) -> Vec<String> {
    v.iter().map(|s| s.to_string()).collect()
}

#[test]
fn model_choice_order() {
    let ms = names(&["llama3:8b", "Mistral:7b", "gemma"]);
    assert_eq!(choose_model(&ms, Some("gem")).ok(), Some("gemma".to_string()));
    assert_eq!(choose_model(&ms, Some("zzz")).ok(), Some("Mistral:7b".to_string()));
    assert_eq!(choose_model(&ms, None).ok(), Some("Mistral:7b".to_string()));
    assert_eq!(choose_model(&names(&["gemma", "tiny"]), None).ok(), Some("gemma".to_string()));
    assert_eq!(choose_model(&names(&["gemma", "llama3"]), None).ok(), Some("gemma".to_string()));
    assert_eq!(choose_model(&names(&["qwen2.5", "PHI3-mini"]), None).ok(), Some("PHI3-mini".to_string()));
    match choose_model(&vec![], Some("phi3")) {
        Err(SmaError::OllamaApi(m)) => assert_eq!(m, "No models installed. Run: ollama pull phi3"),
        _ => panic!("no models"),
    }
}

#[test]
fn endpoints_and_answers() {
    assert_eq!(tags_url("http://127.0.0.1:11434"), "http://127.0.0.1:11434/api/tags");
    assert_eq!(generate_url("http://h"), "http://h/api/generate");
    assert_eq!(generation_text("  SUMMARY: x \n"), "SUMMARY: x");
}

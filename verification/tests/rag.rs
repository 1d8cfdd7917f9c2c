use smatelcom::rag::{chunk_text, document_chunks_of, DocumentChunk, KnowledgeBase};
use smatelcom::agents::pipeline_context;

fn kb() -> KnowledgeBase {
    KnowledgeBase {
        root: "knowledge_base".into(),
        chunks: vec![
            DocumentChunk { source: "qos.md".into(), content: "QoS shaping policy for congestion on edge links".into() },
            DocumentChunk { source: "bgp.md".into(), content: "BGP neighbor maintenance guide".into() },
            DocumentChunk { source: "safety.md".into(), content: "Safety policy: must not disable logging; congestion relief needs approval".into() },
        ],
    }
}

#[test]
fn search_ranks_by_term_hits() {
    let hits = kb().search("congestion policy", 5);
    assert_eq!(hits.len(), 2);
    assert!(hits.iter().all(|h| h.source != "bgp.md"));
    assert!(kb().search("zz", 5).is_empty());
    assert_eq!(kb().search("congestion policy", 1).len(), 1);
}

#[test]
fn context_block_and_fallback() {
    let c = kb().context_for("bgp neighbor", 2);
    assert_eq!(c, "[source: bgp.md]\nBGP neighbor maintenance guide");
    assert_eq!(kb().context_for("nothing here", 2), "No relevant knowledge-base passages found.");
}

#[test]
fn chunking_respects_size() {
    let chunks = chunk_text("alpha\n\nbeta\ngamma", 11);
    assert_eq!(chunks, vec!["alpha\nbeta".to_string(), "gamma".to_string()]);
    let doc = document_chunks_of("a.txt", "short\nthis paragraph is certainly longer than forty bytes in total length");
    assert_eq!(doc.len(), 1);
    assert_eq!(doc[0].source, "a.txt");
}

#[test]
fn pipeline_grounding() {
    let p = pipeline_context(&kb(), "bgp neighbor");
    assert_eq!(p.evidence_sources.len(), 1);
    assert_eq!(p.rag_ctx, "[bgp.md]\nBGP neighbor maintenance guide");
    assert!(p.knowledge_used);
    assert_eq!(p.policy_excerpt, "[bgp.md] BGP neighbor maintenance guide");
    let q = pipeline_context(&kb(), "nothing here");
    assert!(!q.knowledge_used);
    assert_eq!(q.rag_ctx, "No relevant knowledge-base passages found.");
}

#[test]
fn chunks_stay_within_budget_unless_one_paragraph() {
    let long_para = "x".repeat(30);
    let text = format!("aaaa\nbbbb\ncccc\n{long_para}\ndd");
    let chunks = chunk_text(&text, 12);
    assert_eq!(chunks, vec!["aaaa\nbbbb".to_string(), "cccc".to_string(), long_para.clone(), "dd".to_string()]);
    for c in &chunks {
        assert!(c.len() <= 12 || !c.contains('\n'));
    }
}

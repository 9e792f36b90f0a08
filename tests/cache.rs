use doc_pipeline::cache::DocumentCache;
use doc_pipeline::formats::Format;
use doc_pipeline::insights::{Insight, ReplyTier};
use doc_pipeline::processor::{Content, DocumentProcessor, Step};

fn one(t: &str) -> Vec<Insight> {
    vec![Insight { text: t.to_string(), relevance: "0.5".to_string() }]
}

#[test]
fn second_request_is_answered_from_cache() {
    let mut p = DocumentProcessor::new(8);
    let first = p.begin("notes.txt", 10);
    assert!(matches!(first, Ok(Step::Extract(Format::PlainText))));
    let text = p.text_of(Format::PlainText, Content::Bytes(b"hello\nworld".to_vec())).unwrap();
    assert_eq!(text, "hello\nworld");
    let _prompt = p.insight_prompt(&text);
    let (insights, tier) = p.finish("notes.txt", r#"[{"text":"greeting","relevance":0.7}]"#);
    assert_eq!(tier, ReplyTier::Structured);
    match p.begin("notes.txt", 10) {
        Ok(Step::Cached(again)) => assert_eq!(again, insights),
        _ => panic!("expected a cache hit"),
    }
    match p.begin("notes.txt", 10) {
        Ok(Step::Cached(again)) => assert_eq!(again, insights),
        _ => panic!("expected a cache hit"),
    }
}

#[test]
fn inserting_past_capacity_evicts_least_recent() {
    let mut c = DocumentCache::new(2);
    c.insert("a".to_string(), one("A"));
    c.insert("b".to_string(), one("B"));
    c.insert("c".to_string(), one("C"));
    assert_eq!(c.get("a"), None);
    assert_eq!(c.get("b"), Some(one("B")));
    assert_eq!(c.get("c"), Some(one("C")));
}

#[test]
fn a_read_protects_from_eviction() {
    let mut c = DocumentCache::new(2);
    c.insert("a".to_string(), one("A"));
    c.insert("b".to_string(), one("B"));
    assert_eq!(c.get("a"), Some(one("A")));
    c.insert("c".to_string(), one("C"));
    assert_eq!(c.get("b"), None);
    assert_eq!(c.get("a"), Some(one("A")));
}

#[test]
fn insert_replaces_an_existing_key() {
    let mut c = DocumentCache::new(2);
    c.insert("a".to_string(), one("A"));
    c.insert("b".to_string(), one("B"));
    c.insert("a".to_string(), one("A2"));
    c.insert("c".to_string(), one("C"));
    assert_eq!(c.get("a"), Some(one("A2")));
    assert_eq!(c.get("b"), None);
}

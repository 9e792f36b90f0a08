use doc_pipeline::insights::{Insight, InsightExtractor, ReplyTier};

fn texts(v: &[Insight]) -> Vec<&str> {
    v.iter().map(|i| i.text.as_str()).collect()
}

#[test]
fn strict_tier_takes_a_json_array() {
    let x = InsightExtractor::new();
    let (v, tier) = x.parse_reply(r#"[{"text":"a","relevance":0.9}]"#);
    assert_eq!(tier, ReplyTier::Structured);
    assert_eq!(v.len(), 1);
    assert_eq!(v[0].text, "a");
    assert_eq!(v[0].relevance, "0.9");
    assert_eq!(v[0].relevance.parse::<f32>().unwrap(), 0.9f32);
}

#[test]
fn repair_tier_takes_a_bare_object() {
    let x = InsightExtractor::new();
    let (v, tier) = x.parse_reply(r#"{"text":"a","relevance":0.9}"#);
    assert_eq!(tier, ReplyTier::Repaired);
    assert_eq!(texts(&v), vec!["a"]);
    assert_eq!(v[0].relevance, "0.9");
}

#[test]
fn line_tier_takes_prose() {
    let x = InsightExtractor::new();
    let (v, tier) = x.parse_reply("just some prose\nsecond line");
    assert_eq!(tier, ReplyTier::Lines);
    assert_eq!(texts(&v), vec!["just some prose", "second line"]);
    assert!(v.iter().all(|i| i.relevance == "0.8"));
}

#[test]
fn fenced_reply_with_single_quotes_parses() {
    let x = InsightExtractor::new();
    let reply = "```json\n[{'text': 'x', 'relevance': 1}, {'text': 'y', 'relevance': 0.25, 'extra': true}]\n```";
    let (v, tier) = x.parse_reply(reply);
    assert_eq!(tier, ReplyTier::Structured);
    assert_eq!(texts(&v), vec!["x", "y"]);
    assert_eq!(v[0].relevance, "1");
    assert_eq!(v[1].relevance, "0.25");
}

#[test]
fn pair_elements_are_accepted() {
    assert_eq!(
        InsightExtractor::decode(r#"[["a", 0.5]]"#),
        Some(vec![Insight { text: "a".to_string(), relevance: "0.5".to_string() }])
    );
    assert_eq!(InsightExtractor::decode(r#"[["a", 0.5, 1]]"#), None);
}

#[test]
fn decode_rejects_wrong_shapes() {
    assert_eq!(InsightExtractor::decode(r#"[{"text":"a"}]"#), None);
    assert_eq!(InsightExtractor::decode(r#"[{"text":1,"relevance":0.5}]"#), None);
    assert_eq!(InsightExtractor::decode(r#"{"text":"a","relevance":0.5}"#), None);
    assert_eq!(InsightExtractor::decode("[] trailing"), None);
    assert_eq!(InsightExtractor::decode("[]"), Some(vec![]));
}

#[test]
fn malformed_json_falls_back_to_lines() {
    let x = InsightExtractor::new();
    let (v, tier) = x.parse_reply("[{\"text\": \"a\",\n  \"relevance\": }]");
    assert_eq!(tier, ReplyTier::Lines);
    assert_eq!(texts(&v), vec!["[{\"text\": \"a\",", "\"relevance\": }]"]);
}

#[test]
fn sanitize_strips_fences_tag_and_quotes() {
    assert_eq!(InsightExtractor::sanitize("  ```json\n[1]\n```  "), "[1]");
    assert_eq!(InsightExtractor::sanitize("JSON {'a': 1}"), "{\"a\": 1}");
    assert_eq!(InsightExtractor::sanitize("jsonjson [ ]"), "[ ]");
    assert_eq!(InsightExtractor::sanitize(""), "");
}

#[test]
fn repair_wraps_unless_array() {
    assert_eq!(InsightExtractor::repair("{\"a\":1}"), "[{\"a\":1}]");
    assert_eq!(InsightExtractor::repair("[1"), "[1");
    assert_eq!(InsightExtractor::repair("x"), "[x]");
    assert_eq!(InsightExtractor::repair(""), "[]");
}

#[test]
fn line_insights_trim_and_skip_blank_lines() {
    let v = InsightExtractor::line_insights("  one \r\n\n \t\ntwo\n");
    assert_eq!(texts(&v), vec!["one", "two"]);
    assert!(InsightExtractor::line_insights(" \n\t ").is_empty());
}

#[test]
fn select_takes_first_tier_that_parsed() {
    let a = vec![Insight { text: "s".to_string(), relevance: "1".to_string() }];
    let b = vec![Insight { text: "r".to_string(), relevance: "1".to_string() }];
    let (v, t) = InsightExtractor::select("l", Some(a.clone()), Some(b.clone()));
    assert_eq!((texts(&v), t), (vec!["s"], ReplyTier::Structured));
    let (v, t) = InsightExtractor::select("l", None, Some(b));
    assert_eq!((texts(&v), t), (vec!["r"], ReplyTier::Repaired));
    let (v, t) = InsightExtractor::select("l", None, None);
    assert_eq!((texts(&v), t), (vec!["l"], ReplyTier::Lines));
}

#[test]
fn prompts_embed_the_text() {
    let x = InsightExtractor::new();
    let p = x.insight_prompt("DOC");
    assert!(p.starts_with("Extract key insights"));
    assert!(p.contains("Text to analyze:\nDOC\n\nRespond ONLY with the JSON array."));
    assert_eq!(
        x.quick_prompt("DOC"),
        "Please analyze this text and provide the key insights in a clear, concise way:\n\nDOC"
    );
}

#[test]
fn objects_without_enclosing_array_are_repaired() {
    let x = InsightExtractor::new();
    let (v, tier) = x.parse_reply(r#"{"text":"a","relevance":0.9},{"text":"b","relevance":0.5}"#);
    assert_eq!(tier, ReplyTier::Repaired);
    assert_eq!(texts(&v), vec!["a", "b"]);
    assert_eq!(v[1].relevance, "0.5");
}

#[test]
fn empty_array_reply_gives_no_insights() {
    let x = InsightExtractor::new();
    let (v, tier) = x.parse_reply("[]");
    assert_eq!(tier, ReplyTier::Structured);
    assert!(v.is_empty());
}

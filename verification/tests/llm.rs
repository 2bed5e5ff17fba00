use packfix::llm::clean_llm_json;

#[test]
fn clean_json_extracts_first_valid_json() {
    let s = r#"Here is the suggestion:
{"summary": "A test", "description": null, "license_suggestion": null, "confidence": 0.9, "notes": []}
Some extra text."#;
    let cleaned = clean_llm_json(s).expect("should extract JSON");
    let parsed: serde_json::Value =
        serde_json::from_str(&cleaned).expect("should be valid JSON");
    assert_eq!(parsed["summary"], "A test");
    assert_eq!(parsed["confidence"], 0.9);
}

#[test]
fn clean_json_strips_markdown_fences() {
    let s = r#"```json
{"summary": "A test", "description": null, "license_suggestion": null, "confidence": 0.9, "notes": []}
```"#;
    let cleaned = clean_llm_json(s).expect("should extract JSON");
    let parsed: serde_json::Value =
        serde_json::from_str(&cleaned).expect("should be valid JSON");
    assert_eq!(parsed["summary"], "A test");
}

#[test]
fn clean_json_handles_trailing_thoughts() {
    let s = r#"{"summary": "A test", "description": null, "license_suggestion": null, "confidence": 0.9, "notes": []} and then some more thoughts about the package..."#;
    let cleaned = clean_llm_json(s).expect("should extract JSON");
    let parsed: serde_json::Value =
        serde_json::from_str(&cleaned).expect("should be valid JSON");
    assert_eq!(parsed["summary"], "A test");
}

#[test]
fn clean_json_returns_error_on_no_json() {
    let s = "No JSON here, just random text.";
    assert!(clean_llm_json(s).is_err());
}

use ycard::markdown::{extract_all_ycard, extract_ycard_context, extract_ycard_fenced, ExtractionType};

#[test]
fn test_fenced_extraction() {
    let md = r#"
# Document Title

Here is a contact:

```ycard
name: Jane Doe
mobile: 555-123-4567
```

Some other content.
"#;

    let spans = extract_ycard_fenced(md);
    assert_eq!(spans.len(), 1);
    assert!(spans[0].content.contains("name: Jane Doe"));
    assert_eq!(spans[0].extraction_type, ExtractionType::FencedCodeBlock);
}

#[test]
fn test_contextual_extraction() {
    let md = r#"
# About Me

## Contact
name: John Smith
home: +44 20 7946 0958
email: john@example.com

## Other Section
This is not contact info.
"#;

    let spans = extract_ycard_context(md, Some("en"));
    assert_eq!(spans.len(), 1);
    assert!(spans[0].content.contains("name: John Smith"));
    assert_eq!(spans[0].extraction_type, ExtractionType::ContextualBlock);
    assert_eq!(spans[0].inferred_locale, Some("en".to_string()));
}

#[test]
fn test_localized_headings() {
    let md = "\n## Kontakt\nname: Hans Mueller\ntelefon: +49 30 12345678\n";

    let spans = extract_ycard_context(md, Some("de"));
    assert_eq!(spans.len(), 1);
    assert!(spans[0].content.contains("Hans Mueller"));
}

#[test]
fn test_combined_extraction() {
    let md = "\n# Document\n\n```ycard\nname: Alice\n```\n\n## Contact  \nname: Bob\nmobile: 123456789\n";

    let spans = extract_all_ycard(md, Some("en"));
    assert_eq!(spans.len(), 2);

    assert!(spans[0].content.contains("Alice"));
    assert!(spans[1].content.contains("Bob"));
}

#[test]
fn test_fenced_extraction_needs_close() {
    let md = "```ycard\nname: Alice\n";
    let spans = extract_ycard_fenced(md);
    assert_eq!(spans.len(), 0);
}

#[test]
fn test_contextual_stops_at_same_level_heading() {
    let md = "## Contact\nname: A\n## Contact\nname: B\n";
    let spans = extract_ycard_context(md, None);
    assert_eq!(spans.len(), 2);
    assert!(spans[0].content.contains("name: A"));
    assert!(spans[1].content.contains("name: B"));
    assert!(spans[0].start <= spans[1].start);
    assert_eq!(spans[0].inferred_locale, None);
}

#[test]
fn test_deeper_heading_ends_a_started_block() {
    let md = "## Contact
name: A
### Notes
name: B
";
    let spans = extract_ycard_context(md, None);
    assert_eq!(spans.len(), 1);
    assert!(spans[0].content.contains("name: A"));
    assert!(!spans[0].content.contains("name: B"));
}

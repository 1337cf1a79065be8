use chrono::TimeZone;
use chrono::Utc;
use para_ssg::ParaSsgError;
use para_ssg::extract_frontmatter;
use para_ssg::parse_frontmatter;

#[test]
fn test_parse_no_frontmatter() {
    let content = "# Hello World\n\nThis is content.";
    let (metadata, body) = parse_frontmatter(content).unwrap();

    assert_eq!(metadata.title, None);
    assert_eq!(body, content);
}

#[test]
fn test_parse_basic_frontmatter() {
    let content = "---\ntitle: My Document\ntags:\n  - rust\n  - testing\n---\n# Content\n\nBody text";
    let (metadata, body) = parse_frontmatter(content).unwrap();

    assert_eq!(metadata.title, Some("My Document".to_string()));
    assert_eq!(metadata.tags, vec!["rust".to_string(), "testing".to_string()]);
    assert_eq!(body, "# Content\n\nBody text");
}

#[test]
fn test_parse_frontmatter_with_dates() {
    let content =
        "---\ntitle: Test\ncreated: 2023-01-15T10:00:00Z\nmodified: 2023-01-16T15:30:00Z\n---\nContent";
    let (metadata, _) = parse_frontmatter(content).unwrap();

    assert_eq!(metadata.title, Some("Test".to_string()));
    assert_eq!(
        metadata.created,
        Some(Utc.with_ymd_and_hms(2023, 1, 15, 10, 0, 0).unwrap().timestamp())
    );
    assert_eq!(
        metadata.modified,
        Some(Utc.with_ymd_and_hms(2023, 1, 16, 15, 30, 0).unwrap().timestamp())
    );
}

#[test]
fn test_parse_frontmatter_with_custom_fields() {
    let content = "---\ntitle: Test\ncustom_field: value\nnested:\n  field: data\n---\nContent";
    let (metadata, _) = parse_frontmatter(content).unwrap();

    assert_eq!(metadata.title, Some("Test".to_string()));
    assert!(metadata.custom_contains_key("custom_field"));
    assert!(metadata.custom_contains_key("nested"));
}

#[test]
fn test_parse_empty_frontmatter() {
    let content = "---\n---\nContent";
    let (metadata, body) = parse_frontmatter(content).unwrap();

    assert_eq!(metadata.title, None);
    assert_eq!(body, "Content");
}

#[test]
fn test_parse_malformed_frontmatter() {
    let content = "---\ninvalid: yaml: syntax:\n---\nContent";
    let result = parse_frontmatter(content);

    assert!(result.is_err());
}

#[test]
fn test_parse_unclosed_frontmatter() {
    let content = "---\ntitle: Test\nNo closing delimiter";
    let result = parse_frontmatter(content);

    assert!(result.is_err());
    match result.unwrap_err() {
        ParaSsgError::ParseError(m) => assert!(m.contains("no closing delimiter")),
        _ => panic!("expected a parse error"),
    }
}

#[test]
fn test_parse_tab_indented_frontmatter() {
    let content = "---\ntitle: Test\ntags:\n\t- tab-indented\n---\n# Content";
    let result = parse_frontmatter(content);

    assert!(result.is_err());
    match result.unwrap_err() {
        ParaSsgError::ParseError(m) => {
            assert!(m.contains("Tab characters are not allowed"));
        }
        _ => panic!("expected a parse error"),
    }
}

#[test]
fn test_extract_frontmatter() {
    let content = "---\ntitle: Test\n---\nContent";
    let yaml = extract_frontmatter(content).unwrap();

    assert_eq!(yaml, "title: Test");
}

#[test]
fn test_parse_frontmatter_crlf() {
    let content = "---\r\ntitle: Test\r\n---\r\nContent";
    let (metadata, body) = parse_frontmatter(content).unwrap();

    assert_eq!(metadata.title, Some("Test".to_string()));
    assert_eq!(body, "Content");
}

#[test]
fn test_parse_invalid_date_fails_document() {
    let content = "---\ntitle: Test\ncreated: not-a-date\n---\nContent";
    let result = parse_frontmatter(content);

    assert!(result.is_err());
    match result.unwrap_err() {
        ParaSsgError::ParseError(m) => assert!(m.contains("invalid date value")),
        _ => panic!("expected a parse error"),
    }
}

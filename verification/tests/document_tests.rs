use para_ssg::Document;

#[test]
fn test_document_new() {
    let doc = Document::new(
        "/input/projects/test.md".to_string(),
        "projects/test.md".to_string(),
        "projects".to_string(),
    );

    assert_eq!(doc.output_path, "projects/test.html");
    assert_eq!(doc.category, "projects");
}

#[test]
fn test_document_title_fallback() {
    let mut doc = Document::new(
        "/input/my-document.md".to_string(),
        "my-document.md".to_string(),
        "root".to_string(),
    );

    // No title in metadata - should use filename
    assert_eq!(doc.title(), "my-document");

    // With title in metadata
    doc.metadata.title = Some("My Document Title".to_string());
    assert_eq!(doc.title(), "My Document Title");
}

#[test]
fn test_document_category_override() {
    let mut doc = Document::new(
        "/input/resources/test.md".to_string(),
        "resources/test.md".to_string(),
        "resources".to_string(),
    );

    // No override - use detected category
    assert_eq!(doc.effective_category(), "resources");

    // With override in metadata
    doc.metadata.category = Some("projects".to_string());
    assert_eq!(doc.effective_category(), "projects");
}

#[test]
fn test_document_is_draft() {
    let mut doc = Document::new(
        "/input/test.md".to_string(),
        "test.md".to_string(),
        "root".to_string(),
    );

    assert!(!doc.is_draft());

    doc.metadata.status = Some("draft".to_string());
    assert!(doc.is_draft());

    doc.metadata.status = Some("published".to_string());
    assert!(!doc.is_draft());
}

use para_ssg::Document;
use para_ssg::SearchEntry;
use para_ssg::SearchIndex;
use para_ssg::extract_plain_text;
use para_ssg::generate_excerpt;
use para_ssg::process_content_for_search;

fn create_test_document(title: &str, content: &str, tags: Vec<String>) -> Document {
    let mut doc = Document::new(
        format!("/input/{}.md", title),
        format!("{}.md", title),
        "test".to_string(),
    );
    doc.metadata.title = Some(title.to_string());
    doc.metadata.tags = tags;
    doc.html_content = format!("<p>{}</p>", content);
    doc
}

#[test]
fn test_extract_plain_text() {
    let html = r#"
            <h1>Hello World</h1>
            <p>This is a <strong>test</strong> document.</p>
            <script>alert('test');</script>
            <style>body { color: red; }</style>
            <div>More content &amp; entities</div>
        "#;

    let plain = extract_plain_text(html);
    assert_eq!(
        plain,
        "Hello World This is a test document. More content & entities"
    );
}

#[test]
fn test_generate_excerpt() {
    let content = "This is a long piece of content that should be truncated at a reasonable point without cutting words in half.";

    let excerpt = generate_excerpt(content, 50);
    assert_eq!(excerpt, "This is a long piece of content that should be...");

    let short_content = "Short content";
    let short_excerpt = generate_excerpt(short_content, 50);
    assert_eq!(short_excerpt, "Short content");
}

#[test]
fn test_process_content_for_search_lowercases() {
    let processed = process_content_for_search("MiXeD Case TEXT", 100);
    assert_eq!(processed, "mixed case text");
}

#[test]
fn test_search_entry_from_document() {
    let doc = create_test_document(
        "Test Document",
        "This is the content of the test document with some interesting information.",
        vec!["test".to_string(), "search".to_string()],
    );

    let entry = SearchEntry::from_document(&doc);

    assert_eq!(entry.title, "Test Document");
    assert_eq!(entry.path, "Test Document.html");
    assert_eq!(entry.category, "test");
    assert_eq!(entry.tags, vec!["test", "search"]);
    assert!(entry.excerpt.contains("content of the test document"));
    assert!(entry.content.contains("content of the test document"));
    assert_eq!(entry.content, entry.content.to_lowercase());
}

#[test]
fn test_search_index_from_documents() {
    let docs = vec![
        create_test_document("Doc1", "Content for document one", vec!["tag1".to_string()]),
        create_test_document("Doc2", "Content for document two", vec!["tag2".to_string()]),
    ];

    let index = SearchIndex::from_documents(&docs);

    assert_eq!(index.version, "1.0");
    assert_eq!(index.documents.len(), 2);
    assert_eq!(index.stats.total_documents, 2);
    let by_cat = &index.stats.documents_by_category;
    let test_count = by_cat.iter().find(|c| c.0 == "test").map(|c| c.1);
    assert_eq!(test_count, Some(2));
}

#[test]
fn test_search_index_excludes_drafts() {
    let mut draft_doc = create_test_document("Draft", "Draft content", vec![]);
    draft_doc.metadata.status = Some("draft".to_string());

    let published_doc = create_test_document("Published", "Published content", vec![]);

    let docs = vec![draft_doc, published_doc];
    let index = SearchIndex::from_documents(&docs);

    assert_eq!(index.documents.len(), 1);
    assert_eq!(index.documents[0].title, "Published");
}

#[test]
fn test_content_truncation() {
    let long_content = "x".repeat(10000);
    let doc = create_test_document("Long", &long_content, vec![]);

    let entry = SearchEntry::from_document(&doc);
    assert!(entry.content.len() <= 5000);
}

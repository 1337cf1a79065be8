use para_ssg::ParaSsgError;
use para_ssg::SourceDocument;
use para_ssg::build_document_lookup;
use para_ssg::build_site;
use para_ssg::normalize_for_lookup;
use para_ssg::parse_document;

fn source(path: &str, content: &str) -> SourceDocument {
    SourceDocument {
        path: format!("/input/{}", path),
        relative_path: path.to_string(),
        category: para_ssg::detect_para_category(path),
        content: content.to_string(),
        fallback_modified: None,
    }
}

#[test]
fn test_resolvable_link_produces_anchor() {
    // A link to a known title resolves, and the lookup table carries the
    // normalized key "test document".
    let docs = vec![
        source(
            "docs/test.md",
            "---\ntitle: Test Document\n---\nThe target.",
        ),
        source("index.md", "See [[Test Document]]."),
    ];
    let out = build_site(&docs).unwrap();

    let pairs: Vec<(String, String)> = out
        .documents
        .iter()
        .map(|d| (d.output_path.clone(), d.title()))
        .collect();
    let lookup = build_document_lookup(&pairs);
    assert!(lookup.contains_key("test document"));
    assert_eq!(normalize_for_lookup("Test Document"), "test document");

    let index_doc = out
        .documents
        .iter()
        .find(|d| d.relative_path == "index.md")
        .unwrap();
    assert_eq!(index_doc.wiki_links.len(), 1);
    assert!(!index_doc.wiki_links[0].is_broken);
    assert_eq!(
        index_doc.wiki_links[0].resolved_path,
        Some("docs/test.html".to_string())
    );
    assert!(index_doc
        .html_content
        .contains(r#"<a href="docs/test.html" class="wiki-link">Test Document</a>"#));
    assert_eq!(out.stats.broken_links, 0);
}

#[test]
fn test_unresolvable_link_is_broken_and_counted() {
    let docs = vec![source("index.md", "See [[missing-doc]].")];
    let before = 0;
    let out = build_site(&docs).unwrap();

    let doc = &out.documents[0];
    assert_eq!(doc.wiki_links.len(), 1);
    assert!(doc.wiki_links[0].is_broken);
    assert_eq!(doc.wiki_links[0].resolved_path, None);
    assert_eq!(out.stats.broken_links, before + 1);
    assert!(doc.html_content.contains("missing-doc"));
    assert!(doc.html_content.contains("wiki-link broken"));
}

#[test]
fn test_unclosed_frontmatter_fails_only_that_document() {
    let docs = vec![
        source("bad.md", "---\ntitle: Test\nNo closing delimiter"),
        source("good.md", "# Fine"),
    ];
    let out = build_site(&docs).unwrap();

    assert_eq!(out.parse_errors.len(), 1);
    assert_eq!(out.documents.len(), 1);
    assert_eq!(out.parse_errors[0].0, "bad.md");
    match &out.parse_errors[0].1 {
        ParaSsgError::ParseError(m) => assert!(m.contains("no closing delimiter")),
        _ => panic!("expected a parse error"),
    }
}

#[test]
fn test_two_documents_backlinks() {
    // A links to B; after indexing, B carries one backlink naming A's
    // title, and A carries none.
    let docs = vec![
        source("projects/a.md", "---\ntitle: Doc A\n---\nLink to [[Doc B]]."),
        source("projects/b.md", "---\ntitle: Doc B\n---\nNo links here."),
    ];
    let out = build_site(&docs).unwrap();

    let a = out
        .documents
        .iter()
        .find(|d| d.relative_path == "projects/a.md")
        .unwrap();
    let b = out
        .documents
        .iter()
        .find(|d| d.relative_path == "projects/b.md")
        .unwrap();

    assert_eq!(b.backlinks.len(), 1);
    assert_eq!(b.backlinks[0].source_title, "Doc A");
    assert_eq!(b.backlinks[0].source_path, "projects/a.md");
    assert_eq!(a.backlinks.len(), 0);
}

#[test]
fn test_tab_indented_frontmatter_fails_document() {
    let docs = vec![source(
        "tabs.md",
        "---\ntitle: Test\ntags:\n\t- tab-indented\n---\n# Content",
    )];
    let result = build_site(&docs);
    // the only document fails, so the whole build fails
    assert!(result.is_err());

    let direct = parse_document(
        "---\ntitle: Test\ntags:\n\t- tab-indented\n---\n# Content",
        "/input/tabs.md".to_string(),
        "tabs.md".to_string(),
        "root".to_string(),
        None,
    );
    match direct.unwrap_err() {
        ParaSsgError::ParseError(m) => assert!(m.contains("Tab characters are not allowed")),
        _ => panic!("expected a parse error"),
    }
}

#[test]
fn test_parse_document_complete() {
    let content = "---\ntitle: Test Document\ntags:\n  - rust\n  - testing\ncreated: 2023-01-15T10:00:00Z\n---\n# Test Document\n\nThis is a test document with **markdown**.\n\n- Item 1\n- Item 2\n";
    let doc = parse_document(
        content,
        "/input/test.md".to_string(),
        "test.md".to_string(),
        "root".to_string(),
        None,
    )
    .unwrap();

    assert_eq!(doc.metadata.title, Some("Test Document".to_string()));
    assert_eq!(doc.metadata.tags, vec!["rust", "testing"]);
    assert!(doc.raw_content.contains("# Test Document"));
    assert!(doc.html_content.contains("<h1>Test Document</h1>"));
    assert!(doc.html_content.contains("<strong>markdown</strong>"));
    assert_eq!(doc.category, "root");
    assert_eq!(doc.output_path, "test.html");
}

#[test]
fn test_parse_document_no_frontmatter() {
    let content = "# Simple Document\n\nNo frontmatter here.";
    let doc = parse_document(
        content,
        "/input/simple.md".to_string(),
        "simple.md".to_string(),
        "root".to_string(),
        None,
    )
    .unwrap();

    assert_eq!(doc.metadata.title, None);
    assert_eq!(doc.title(), "simple");
    assert!(doc.raw_content.contains("# Simple Document"));
    assert!(doc.html_content.contains("<h1>Simple Document</h1>"));
}

#[test]
fn test_parse_document_uses_fallback_time() {
    let doc = parse_document(
        "# Untimed",
        "/input/u.md".to_string(),
        "u.md".to_string(),
        "root".to_string(),
        Some(1700000000),
    )
    .unwrap();
    assert_eq!(doc.metadata.modified, Some(1700000000));
    assert_eq!(doc.date(), Some(1700000000));
}

#[test]
fn test_build_site_all_documents_fail() {
    let docs = vec![source("bad.md", "---\nnever closed")];
    let result = build_site(&docs);
    assert!(result.is_err());
}

#[test]
fn test_parse_errors_carry_path_and_cause() {
    let docs = vec![
        source("first.md", "# Fine"),
        source("unclosed.md", "---\ntitle: Test\nNo closing delimiter"),
        source("tabs.md", "---\ntitle: Test\ntags:\n\t- tab-indented\n---\n# Content"),
        source("last.md", "# Also fine"),
    ];
    let out = build_site(&docs).unwrap();

    assert_eq!(out.parse_errors.len(), 2);
    assert_eq!(out.parse_errors[0].0, "unclosed.md");
    match &out.parse_errors[0].1 {
        ParaSsgError::ParseError(m) => assert!(m.contains("no closing delimiter")),
        _ => panic!("expected a parse error"),
    }
    assert_eq!(out.parse_errors[1].0, "tabs.md");
    match &out.parse_errors[1].1 {
        ParaSsgError::ParseError(m) => assert!(m.contains("Tab characters are not allowed")),
        _ => panic!("expected a parse error"),
    }
}

#[test]
fn test_invalid_date_fails_only_that_document() {
    let docs = vec![
        source("bad-date.md", "---\ntitle: Bad\ncreated: soon\n---\nBody"),
        source("good.md", "# Fine"),
    ];
    let out = build_site(&docs).unwrap();
    assert_eq!(out.documents.len(), 1);
    assert_eq!(out.parse_errors.len(), 1);
    assert_eq!(out.parse_errors[0].0, "bad-date.md");
    match &out.parse_errors[0].1 {
        ParaSsgError::ParseError(m) => assert!(m.contains("invalid date value")),
        _ => panic!("expected a parse error"),
    }
}

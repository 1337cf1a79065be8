use para_ssg::BacklinkIndex;
use para_ssg::BacklinkReference;
use para_ssg::Document;
use para_ssg::ResolvedLink;
use para_ssg::WikiLink;
use para_ssg::apply_backlinks_to_documents;
use para_ssg::build_backlink_index;
use para_ssg::calculate_link_statistics;
use para_ssg::extract_link_context;

fn create_test_document(path: &str, title: &str) -> Document {
    let mut doc = Document::new(
        format!("/input/{}", path),
        path.to_string(),
        "test".to_string(),
    );
    doc.metadata.title = Some(title.to_string());
    doc
}

fn create_resolved_link(original: &str, target_path: &str, is_valid: bool) -> ResolvedLink {
    ResolvedLink {
        wiki_link: WikiLink {
            full_match: original.to_string(),
            target: original
                .trim_start_matches("[[")
                .trim_end_matches("]]")
                .to_string(),
            display: None,
            start: 0,
            end: original.len(),
        },
        resolved_path: if is_valid {
            Some(target_path.to_string())
        } else {
            None
        },
        is_broken: !is_valid,
    }
}

#[test]
fn test_build_backlink_index() {
    let mut doc1 = create_test_document("doc1.md", "Document 1");
    doc1.wiki_links = vec![
        create_resolved_link("[[doc2]]", "doc2.md", true),
        create_resolved_link("[[doc3]]", "doc3.md", true),
    ];

    let mut doc2 = create_test_document("doc2.md", "Document 2");
    doc2.wiki_links = vec![create_resolved_link("[[doc3]]", "doc3.md", true)];

    let doc3 = create_test_document("doc3.md", "Document 3");

    let documents = vec![doc1, doc2, doc3];
    let index = build_backlink_index(&documents);

    // doc2 should have 1 backlink from doc1
    assert_eq!(index.get("doc2.md").unwrap().len(), 1);

    // doc3 should have 2 backlinks from doc1 and doc2
    assert_eq!(index.get("doc3.md").unwrap().len(), 2);

    // doc1 should have no backlinks
    assert!(index.get("doc1.md").is_none());
}

#[test]
fn test_broken_links_not_in_index() {
    let mut doc1 = create_test_document("doc1.md", "Document 1");
    doc1.wiki_links = vec![create_resolved_link("[[ghost]]", "ghost.md", false)];
    let documents = vec![doc1];
    let index = build_backlink_index(&documents);
    assert!(index.get("ghost.md").is_none());
    assert_eq!(index.entries.len(), 0);
}

#[test]
fn test_apply_backlinks_to_documents() {
    let mut documents = vec![
        create_test_document("doc1.md", "Document 1"),
        create_test_document("doc2.md", "Document 2"),
    ];

    let index = BacklinkIndex {
        entries: vec![(
            "doc2.html".to_string(),
            vec![BacklinkReference {
                source_path: "doc1.md".to_string(),
                source_title: "Document 1".to_string(),
                link_context: Some("Test context".to_string()),
            }],
        )],
    };

    apply_backlinks_to_documents(&mut documents, &index);

    assert_eq!(documents[0].backlinks.len(), 0);
    assert_eq!(documents[1].backlinks.len(), 1);
    assert_eq!(documents[1].backlinks[0].source_title, "Document 1");
}

#[test]
fn test_backlinks_sorted_by_title() {
    let mut documents = vec![create_test_document("target.md", "Target")];
    let index = BacklinkIndex {
        entries: vec![(
            "target.html".to_string(),
            vec![
                BacklinkReference {
                    source_path: "z.md".to_string(),
                    source_title: "Zeta".to_string(),
                    link_context: None,
                },
                BacklinkReference {
                    source_path: "a.md".to_string(),
                    source_title: "Alpha".to_string(),
                    link_context: None,
                },
                BacklinkReference {
                    source_path: "m.md".to_string(),
                    source_title: "Mid".to_string(),
                    link_context: None,
                },
            ],
        )],
    };
    apply_backlinks_to_documents(&mut documents, &index);
    let titles: Vec<&str> = documents[0]
        .backlinks
        .iter()
        .map(|b| b.source_title.as_str())
        .collect();
    assert_eq!(titles, vec!["Alpha", "Mid", "Zeta"]);

    // Determinism: the same input sorts to the same output.
    let mut documents2 = vec![create_test_document("target.md", "Target")];
    apply_backlinks_to_documents(&mut documents2, &index);
    let titles2: Vec<&str> = documents2[0]
        .backlinks
        .iter()
        .map(|b| b.source_title.as_str())
        .collect();
    assert_eq!(titles, titles2);
}

#[test]
fn test_extract_link_context() {
    let content = "This is some text before the [[wiki link]] and some text after it.";
    let context = extract_link_context(content, "[[wiki link]]");

    assert!(context.is_some());
    let context_text = context.unwrap();
    assert!(context_text.contains("text before"));
    assert!(context_text.contains("[[wiki link]]"));
    assert!(context_text.contains("text after"));
}

#[test]
fn test_extract_link_context_missing_text() {
    let context = extract_link_context("no such link here", "[[absent]]");
    assert!(context.is_none());
}

#[test]
fn test_link_statistics() {
    let mut doc1 = create_test_document("doc1.md", "Document 1");
    doc1.wiki_links = vec![
        create_resolved_link("[[doc2]]", "doc2.md", true),
        create_resolved_link("[[broken]]", "broken.md", false),
    ];

    let mut doc2 = create_test_document("doc2.md", "Document 2");
    doc2.backlinks = vec![BacklinkReference {
        source_path: "doc1.md".to_string(),
        source_title: "Document 1".to_string(),
        link_context: None,
    }];

    let doc3 = create_test_document("doc3.md", "Document 3");

    let documents = vec![doc1, doc2, doc3];
    let stats = calculate_link_statistics(&documents);

    assert_eq!(stats.total_documents, 3);
    assert_eq!(stats.total_links, 2);
    assert_eq!(stats.valid_links, 1);
    assert_eq!(stats.broken_links, 1);
    assert_eq!(stats.documents_with_backlinks, 1);
    assert_eq!(stats.orphaned_documents.len(), 2);
}

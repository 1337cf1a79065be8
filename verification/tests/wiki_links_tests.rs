use para_ssg::DocumentLookup;
use para_ssg::ResolvedLink;
use para_ssg::WikiLink;
use para_ssg::build_document_lookup;
use para_ssg::calculate_relative_path;
use para_ssg::html_escape;
use para_ssg::normalize_for_lookup;
use para_ssg::parse_wiki_links;
use para_ssg::replace_wiki_links_with_html;
use para_ssg::resolve_wiki_links;

#[test]
fn test_parse_simple_wiki_link() {
    let content = "This is a [[test link]] in text.";
    let links = parse_wiki_links(content);

    assert_eq!(links.len(), 1);
    assert_eq!(links[0].target, "test link");
    assert_eq!(links[0].display, None);
    assert_eq!(links[0].full_match, "[[test link]]");
}

#[test]
fn test_parse_wiki_link_with_display() {
    let content = "This is a [[target|display text]] link.";
    let links = parse_wiki_links(content);

    assert_eq!(links.len(), 1);
    assert_eq!(links[0].target, "target");
    assert_eq!(links[0].display, Some("display text".to_string()));
}

#[test]
fn test_parse_multiple_wiki_links() {
    let content = "First [[link1]], second [[link2|text]], and [[link3]].";
    let links = parse_wiki_links(content);

    assert_eq!(links.len(), 3);
    assert_eq!(links[0].target, "link1");
    assert_eq!(links[1].target, "link2");
    assert_eq!(links[2].target, "link3");
}

#[test]
fn test_normalize_for_lookup() {
    assert_eq!(normalize_for_lookup("Test Document"), "test document");
    assert_eq!(normalize_for_lookup("test-document"), "test document");
    assert_eq!(normalize_for_lookup("test_document"), "test document");
    assert_eq!(normalize_for_lookup("Test  Document"), "test document");
}

#[test]
fn test_normalize_idempotent_on_values() {
    for k in ["Test-Doc_Mixed  CASE", "  padded  ", "already normal"] {
        let once = normalize_for_lookup(k);
        let twice = normalize_for_lookup(&once);
        assert_eq!(once, twice);
    }
}

#[test]
fn test_build_document_lookup() {
    let documents = vec![
        ("projects/test.md".to_string(), "Test Document".to_string()),
        ("areas/my-file.md".to_string(), "My File Title".to_string()),
    ];

    let lookup = build_document_lookup(&documents);

    // Should find by title
    assert!(lookup.contains_key("test document"));
    assert!(lookup.contains_key("my file title"));

    // Should find by filename
    assert!(lookup.contains_key("test"));
    assert!(lookup.contains_key("my file"));

    // Should find by path
    assert!(lookup.contains_key("projects/test"));
    assert!(lookup.contains_key("areas/my file"));
}

#[test]
fn test_resolve_wiki_links() {
    let wiki_links = vec![
        WikiLink {
            full_match: "[[Test Document]]".to_string(),
            target: "Test Document".to_string(),
            display: None,
            start: 0,
            end: 16,
        },
        WikiLink {
            full_match: "[[nonexistent]]".to_string(),
            target: "nonexistent".to_string(),
            display: None,
            start: 20,
            end: 35,
        },
    ];

    let mut lookup = DocumentLookup::new();
    lookup.insert("test document".to_string(), "test.md".to_string());

    let resolved = resolve_wiki_links(wiki_links, &lookup);

    assert_eq!(resolved.len(), 2);
    assert!(!resolved[0].is_broken);
    assert_eq!(resolved[0].resolved_path, Some("test.md".to_string()));
    assert!(resolved[1].is_broken);
    assert_eq!(resolved[1].resolved_path, None);
}

#[test]
fn test_calculate_relative_path() {
    // Same directory
    assert_eq!(
        calculate_relative_path("projects/doc1.html", "projects/doc2.html").unwrap(),
        "doc2.html"
    );

    // Different directories
    assert_eq!(
        calculate_relative_path("projects/sub/doc1.html", "areas/doc2.html").unwrap(),
        "../../areas/doc2.html"
    );

    // To subdirectory
    assert_eq!(
        calculate_relative_path("index.html", "projects/doc.html").unwrap(),
        "projects/doc.html"
    );
}

#[test]
fn test_relative_path_round_trip_on_values() {
    // Resolving the href against the source document's directory lands on
    // the target: projects/sub/doc1.html -> ../../areas/doc2.html.
    let href = calculate_relative_path("projects/sub/doc1.html", "areas/doc2.html").unwrap();
    let mut base: Vec<&str> = vec!["projects", "sub"];
    for comp in href.split('/') {
        if comp == ".." {
            base.pop();
        } else {
            base.push(comp);
        }
    }
    assert_eq!(base.join("/"), "areas/doc2.html");
}

#[test]
fn test_html_escape() {
    assert_eq!(html_escape("Test & <tag>"), "Test &amp; &lt;tag&gt;");
    assert_eq!(
        html_escape("\"quotes\" 'apostrophe'"),
        "&quot;quotes&quot; &#39;apostrophe&#39;"
    );
}

#[test]
fn test_replace_wiki_links_with_html() {
    let content = "Start [[test]] middle [[broken|display]] end.";
    let resolved_links = vec![
        ResolvedLink {
            wiki_link: WikiLink {
                full_match: "[[test]]".to_string(),
                target: "test".to_string(),
                display: None,
                start: 6,
                end: 14,
            },
            resolved_path: Some("test.html".to_string()),
            is_broken: false,
        },
        ResolvedLink {
            wiki_link: WikiLink {
                full_match: "[[broken|display]]".to_string(),
                target: "broken".to_string(),
                display: Some("display".to_string()),
                start: 22,
                end: 40,
            },
            resolved_path: None,
            is_broken: true,
        },
    ];

    let result = replace_wiki_links_with_html(content, &resolved_links, "index.html").unwrap();

    assert!(result.contains(r#"<a href="test.html" class="wiki-link">test</a>"#));
    assert!(result.contains(
        r#"<span class="wiki-link broken" title="Link target not found: broken">display</span>"#
    ));
}

#[test]
fn test_broken_link_marker_keeps_target() {
    // The broken-link marker names the original, non-normalized target.
    let content = "See [[My Missing-Page]].";
    let links = parse_wiki_links(content);
    let lookup = DocumentLookup::new();
    let resolved = resolve_wiki_links(links, &lookup);
    assert!(resolved[0].is_broken);
    let out = replace_wiki_links_with_html(content, &resolved, "index.html").unwrap();
    assert!(out.contains("My Missing-Page"));
}

#[test]
fn test_get_broken_links() {
    let content = "A [[known]] and a [[lost]] link.";
    let links = para_ssg::parse_wiki_links(content);
    let mut lookup = DocumentLookup::new();
    lookup.insert("known".to_string(), "known.html".to_string());
    let resolved = resolve_wiki_links(links, &lookup);
    let broken = para_ssg::get_broken_links(&resolved);
    assert_eq!(broken.len(), 1);
    assert_eq!(broken[0].target, "lost");
}

use para_ssg::DocumentLookup;
use para_ssg::extract_summary;
use para_ssg::generate_heading_id;
use para_ssg::markdown_to_html;
use para_ssg::markdown_to_html_with_wiki_links;

#[test]
fn test_basic_markdown_conversion() {
    let markdown = "# Hello\n\nThis is a **bold** text with *italics*.";
    let html = markdown_to_html(markdown).unwrap();

    assert!(html.contains("<h1>Hello</h1>"));
    assert!(html.contains("<strong>bold</strong>"));
    assert!(html.contains("<em>italics</em>"));
}

#[test]
fn test_markdown_with_links() {
    let markdown = "Check out [Rust](https://rust-lang.org) and [local link](./page.md).";
    let html = markdown_to_html(markdown).unwrap();

    assert!(html.contains(r#"href="https://rust-lang.org"#));
    assert!(html.contains(r#"href="./page.md"#));
}

#[test]
fn test_markdown_with_code() {
    let markdown = "Inline `code` and\n\n```rust\nfn main() {}\n```";
    let html = markdown_to_html(markdown).unwrap();

    assert!(html.contains("<code>code</code>"));
    assert!(html.contains("<pre><code class=\"language-rust\">fn main() {}"));
}

#[test]
fn test_markdown_with_table() {
    let markdown = "| Header | Value |\n|--------|-------|\n| Cell 1 | Cell 2 |";
    let html = markdown_to_html(markdown).unwrap();

    assert!(html.contains("<table>"));
    assert!(html.contains("<th>Header</th>"));
    assert!(html.contains("<td>Cell 1</td>"));
}

#[test]
fn test_markdown_with_task_list() {
    let markdown = "- [x] Completed\n- [ ] Not completed";
    let html = markdown_to_html(markdown).unwrap();

    assert!(html.contains("[x]") || html.contains("checked") || html.contains("task"));
    assert!(html.contains("Completed"));
    assert!(html.contains("Not completed"));
}

#[test]
fn test_generate_heading_id() {
    assert_eq!(generate_heading_id("Hello World"), "hello-world");
    assert_eq!(generate_heading_id("Test 123!"), "test-123_");
    assert_eq!(generate_heading_id("Multiple   Spaces"), "multiple-spaces");
    assert_eq!(generate_heading_id("CamelCase"), "camelcase");
}

#[test]
fn test_extract_summary() {
    let markdown = "# Title\n\nThis is the first paragraph with some text. It should be extracted.\n\n## Section\n\nMore content here.";
    let summary = extract_summary(markdown, 50);

    assert!(summary.starts_with("Title This is the first paragraph"));
    assert!(summary.ends_with("..."));
    assert!(summary.chars().count() <= 53);
}

#[test]
fn test_extract_summary_skip_code() {
    let markdown = "Text before\n\n```\ncode block\n```\n\nText after";
    let summary = extract_summary(markdown, 100);

    assert!(summary.contains("Text before"));
    assert!(summary.contains("Text after"));
    assert!(!summary.contains("code block"));
}

#[test]
fn test_markdown_to_html_with_wiki_links() {
    let content = "This has a [[test link]] and [[another|display text]].";

    let mut lookup = DocumentLookup::new();
    lookup.insert("test link".to_string(), "test.html".to_string());

    let (html, resolved) =
        markdown_to_html_with_wiki_links(content, "index.html", &lookup).unwrap();

    assert!(html.contains(r#"<a href="test.html" class="wiki-link">test link</a>"#));
    assert!(html.contains(
        r#"<span class="wiki-link broken" title="Link target not found: another">display text</span>"#
    ));

    assert_eq!(resolved.len(), 2);
    assert!(!resolved[0].is_broken);
    assert!(resolved[1].is_broken);
}

#[test]
fn test_markdown_to_html_with_ids() {
    let html = para_ssg::markdown_to_html_with_ids("# Intro {#intro}").unwrap();
    assert!(html.contains("<h1"));
    assert!(html.contains("intro"));
}

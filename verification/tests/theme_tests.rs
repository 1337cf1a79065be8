use para_ssg::generate_base_template;
use para_ssg::generate_header_script;
use para_ssg::generate_search_script;
use para_ssg::get_default_styles;
use para_ssg::render_comments_widget;

#[test]
fn test_render_comments_widget_with_issue() {
    let result = render_comments_widget("mikeyobrien", "forge", Some("123"));
    assert!(result.contains("const owner = 'mikeyobrien'"));
    assert!(result.contains("const repo = 'forge'"));
    assert!(result.contains("const issueNumber = '123'"));
    assert!(result.contains("blog-comments"));
    assert!(result.contains("Add Comment on GitHub"));
}

#[test]
fn test_render_comments_widget_without_issue() {
    let result = render_comments_widget("mikeyobrien", "forge", None);
    assert!(result.contains("const issueNumber = ''"));
    assert!(result.contains("Comments are not yet enabled for this post"));
}

#[test]
fn test_comments_script_contains_required_elements() {
    let script = render_comments_widget("owner", "repo", Some("1"));
    assert!(script.contains("loadComments"));
    assert!(script.contains("displayComments"));
    assert!(script.contains("api.github.com"));
    assert!(script.contains("marked.parse"));
}

#[test]
fn test_search_script_generation() {
    let script = generate_search_script();
    assert!(script.contains("searchIndex"));
    assert!(script.contains("performSearch"));
    assert!(script.contains("Ctrl+K"));
    assert!(script.contains("search-index.json"));
}

#[test]
fn test_search_script_contains_key_functions() {
    let script = generate_search_script();
    assert!(script.contains("loadSearchIndex"));
    assert!(script.contains("searchDocuments"));
    assert!(script.contains("displayResults"));
    assert!(script.contains("highlightText"));
    assert!(script.contains("handleSearchNavigation"));
}

#[test]
fn test_search_script_keyboard_shortcuts() {
    let script = generate_search_script();
    assert!(script.contains("e.ctrlKey || e.metaKey"));
    assert!(script.contains("e.key === 'k'"));
    assert!(script.contains("e.key === '/'"));
    assert!(script.contains("e.key === 'Escape'"));
}

#[test]
fn test_header_script_and_styles_nonempty() {
    assert!(generate_header_script().contains("site-header"));
    assert!(get_default_styles().contains("box-sizing"));
    assert_eq!(generate_base_template().unwrap(), "");
}

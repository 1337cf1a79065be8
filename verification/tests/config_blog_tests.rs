use para_ssg::BlogConfig;
use para_ssg::Config;
use para_ssg::Document;
use para_ssg::get_blog_posts;
use para_ssg::is_blog_post;

#[test]
fn test_blog_config_new() {
    let config = BlogConfig::new();
    assert_eq!(config.github_owner, "");
    assert_eq!(config.github_repo, "");
    assert!(config.comments_enabled);
}

#[test]
fn test_blog_config_is_valid_for_comments() {
    let mut config = BlogConfig::new();
    assert!(!config.is_valid_for_comments());

    config.github_owner = "owner".to_string();
    assert!(!config.is_valid_for_comments());

    config.github_repo = "repo".to_string();
    assert!(config.is_valid_for_comments());

    config.comments_enabled = false;
    assert!(!config.is_valid_for_comments());
}

#[test]
fn test_config_new() {
    let config = Config::new("/input".to_string(), "/output".to_string());

    assert_eq!(config.input_dir, "/input");
    assert_eq!(config.output_dir, "/output");
    assert_eq!(config.base_url, "/");
    assert_eq!(config.site_title, "Knowledge Base");
}

#[test]
fn test_is_blog_post_valid_paths() {
    assert!(is_blog_post("areas/blog/my-first-post.md"));
    assert!(is_blog_post("areas/blog/2024/january/post.md"));
    assert!(is_blog_post("areas/blog/index.md"));
}

#[test]
fn test_is_blog_post_invalid_paths() {
    assert!(!is_blog_post("projects/blog-feature.md"));
    assert!(!is_blog_post("areas/health/exercise.md"));
    assert!(!is_blog_post("resources/blog-writing-tips.md"));
    assert!(!is_blog_post("archives/old-blog.md"));
    assert!(!is_blog_post("blog/post.md"));
}

#[test]
fn test_get_blog_posts() {
    let mut doc1 = Document::new(
        "/input/areas/blog/post1.md".to_string(),
        "areas/blog/post1.md".to_string(),
        "areas".to_string(),
    );
    doc1.metadata.title = Some("Blog Post 1".to_string());

    let mut doc2 = Document::new(
        "/input/areas/blog/post2.md".to_string(),
        "areas/blog/post2.md".to_string(),
        "areas".to_string(),
    );
    doc2.metadata.title = Some("Blog Post 2".to_string());

    let mut doc3 = Document::new(
        "/input/areas/health/fitness.md".to_string(),
        "areas/health/fitness.md".to_string(),
        "areas".to_string(),
    );
    doc3.metadata.title = Some("Not a Blog Post".to_string());

    let mut doc4 = Document::new(
        "/input/projects/something.md".to_string(),
        "projects/something.md".to_string(),
        "projects".to_string(),
    );
    doc4.metadata.title = Some("Project Doc".to_string());

    let documents = vec![doc1, doc2, doc3, doc4];

    let blog_posts = get_blog_posts(&documents);
    assert_eq!(blog_posts.len(), 2);
    assert_eq!(blog_posts[0].title(), "Blog Post 1");
    assert_eq!(blog_posts[1].title(), "Blog Post 2");
}

#[test]
fn test_get_blog_posts_empty() {
    let mut doc = Document::new(
        "/input/projects/test.md".to_string(),
        "projects/test.md".to_string(),
        "projects".to_string(),
    );
    doc.metadata.title = Some("Not a Blog".to_string());

    let documents = vec![doc];

    let blog_posts = get_blog_posts(&documents);
    assert!(blog_posts.is_empty());
}

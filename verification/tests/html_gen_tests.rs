use para_ssg::BlogConfig;
use para_ssg::Document;
use para_ssg::HtmlGenerator;
use para_ssg::category_description;
use para_ssg::category_title;
use para_ssg::humanize_filename;

#[test]
fn test_humanize_filename() {
    assert_eq!(humanize_filename("hello-world"), "Hello World");
    assert_eq!(humanize_filename("test_document"), "Test Document");
    assert_eq!(humanize_filename("my-test_file"), "My Test File");
}

#[test]
fn test_category_titles_and_descriptions() {
    assert_eq!(category_title("projects"), "Projects");
    assert_eq!(category_title("archives"), "Archives");
    assert_eq!(category_title("misc"), "misc");
    assert_eq!(
        category_description("projects"),
        "Active projects with specific outcomes and deadlines"
    );
    assert_eq!(category_description("misc"), "");
}

#[test]
fn test_breadcrumb_generation_for_document() {
    let generator = HtmlGenerator::new(
        "out".to_string(),
        "Test Site".to_string(),
        "/".to_string(),
        BlogConfig::new(),
    );

    let mut doc = Document::new(
        "/input/projects/rust/test.md".to_string(),
        "projects/rust/test.md".to_string(),
        "projects".to_string(),
    );
    doc.metadata.title = Some("My Rust Project".to_string());

    let breadcrumbs = generator.generate_breadcrumbs_for_document(&doc);

    assert_eq!(breadcrumbs.len(), 4);
    assert_eq!(breadcrumbs[0].title, "Home");
    assert_eq!(breadcrumbs[1].title, "Projects");
    assert_eq!(breadcrumbs[2].title, "Rust");
    assert_eq!(breadcrumbs[3].title, "My Rust Project");
    assert!(breadcrumbs[3].url.is_none());
}

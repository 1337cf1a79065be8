use para_ssg::DocumentInfo;
use para_ssg::classify_markdown_file;
use para_ssg::file_stem_of;
use para_ssg::is_hidden_name;
use para_ssg::is_markdown_path;

#[test]
fn test_is_markdown_path() {
    assert!(is_markdown_path("projects/notes.md"));
    assert!(is_markdown_path("deep/tree/file.md"));
    assert!(!is_markdown_path("style.css"));
    assert!(!is_markdown_path("README"));
    assert!(!is_markdown_path("archive.md.bak"));
}

#[test]
fn test_is_hidden_name() {
    assert!(is_hidden_name(".git"));
    assert!(is_hidden_name(".hidden"));
    assert!(!is_hidden_name("visible"));
    assert!(!is_hidden_name(""));
}

#[test]
fn test_file_stem_of() {
    assert_eq!(file_stem_of("projects/test.md"), "test");
    assert_eq!(file_stem_of("a/b/c.tar.gz"), "c.tar");
    assert_eq!(file_stem_of(".hidden"), ".hidden");
    assert_eq!(file_stem_of("plain"), "plain");
}

#[test]
fn test_classify_markdown_file() {
    let info: DocumentInfo = classify_markdown_file(
        "/input/projects/p1.md".to_string(),
        "projects/p1.md".to_string(),
    );
    assert_eq!(info.path, "/input/projects/p1.md");
    assert_eq!(info.relative_path, "projects/p1.md");
    assert_eq!(info.stem, "p1");
    assert_eq!(info.category, "projects");

    let root_info = classify_markdown_file("/input/index.md".to_string(), "index.md".to_string());
    assert_eq!(root_info.category, "root");
    assert_eq!(root_info.stem, "index");
}

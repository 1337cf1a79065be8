use para_ssg::DocumentInfo;
use para_ssg::ParaStatistics;
use para_ssg::detect_para_category;
use para_ssg::get_para_categories;
use para_ssg::has_para_structure;
use para_ssg::organize_by_category;

#[test]
fn test_detect_para_category() {
    assert_eq!(detect_para_category("projects/my-project.md"), "projects");
    assert_eq!(detect_para_category("areas/health/exercise.md"), "areas");
    assert_eq!(detect_para_category("resources/guide.md"), "resources");
    assert_eq!(detect_para_category("archives/old.md"), "archives");
    assert_eq!(detect_para_category("index.md"), "root");
    assert_eq!(detect_para_category("other/file.md"), "root");
}

#[test]
fn test_get_para_categories() {
    let dirs = vec![
        "projects".to_string(),
        "areas".to_string(),
        "other".to_string(),
    ];

    let categories = get_para_categories(&dirs);
    assert_eq!(categories.len(), 2);
    assert!(categories.contains(&"projects".to_string()));
    assert!(categories.contains(&"areas".to_string()));
    assert!(!categories.contains(&"resources".to_string()));
    assert!(!categories.contains(&"other".to_string()));
}

#[test]
fn test_organize_by_category() {
    let paths = vec![
        "projects/p1.md".to_string(),
        "projects/p2.md".to_string(),
        "areas/a1.md".to_string(),
        "index.md".to_string(),
        "resources/r1.md".to_string(),
    ];

    let organized = organize_by_category(&paths).unwrap();

    assert_eq!(organized.get("projects").unwrap().len(), 2);
    assert_eq!(organized.get("areas").unwrap().len(), 1);
    assert_eq!(organized.get("resources").unwrap().len(), 1);
    assert_eq!(organized.get("root").unwrap().len(), 1);
}

#[test]
fn test_has_para_structure() {
    let empty: Vec<String> = vec!["misc".to_string()];
    assert!(!has_para_structure(&empty));

    let with_projects = vec!["misc".to_string(), "projects".to_string()];
    assert!(has_para_structure(&with_projects));
}

#[test]
fn test_para_statistics() {
    let documents = vec![
        DocumentInfo {
            path: "projects/p1.md".to_string(),
            relative_path: "projects/p1.md".to_string(),
            stem: "p1".to_string(),
            category: "projects".to_string(),
        },
        DocumentInfo {
            path: "projects/p2.md".to_string(),
            relative_path: "projects/p2.md".to_string(),
            stem: "p2".to_string(),
            category: "projects".to_string(),
        },
        DocumentInfo {
            path: "areas/a1.md".to_string(),
            relative_path: "areas/a1.md".to_string(),
            stem: "a1".to_string(),
            category: "areas".to_string(),
        },
        DocumentInfo {
            path: "index.md".to_string(),
            relative_path: "index.md".to_string(),
            stem: "index".to_string(),
            category: "root".to_string(),
        },
    ];

    let stats = ParaStatistics::from_documents(&documents);
    assert_eq!(stats.total_count, 4);
    assert_eq!(stats.projects_count, 2);
    assert_eq!(stats.areas_count, 1);
    assert_eq!(stats.resources_count, 0);
    assert_eq!(stats.archives_count, 0);
    assert_eq!(stats.root_count, 1);
}

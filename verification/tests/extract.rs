use angelsuite_installer::extract::{
    detect_wrapper, extraction_plan, is_safe_rel, planned_path, ArchiveEntry, ExtractError,
};

fn entry(path: &str, is_dir: bool) -> ArchiveEntry {
    ArchiveEntry { path: path.to_string(), is_dir }
}

#[test]
fn single_root_wrapper_is_stripped() {
    let entries = vec![
        entry("root/", true),
        entry("root/bin/", true),
        entry("root/bin/app", false),
        entry("root/README", false),
    ];
    assert_eq!(detect_wrapper(&entries), Some("root/".to_string()));
    let plan = extraction_plan(&entries).unwrap();
    let paths: Vec<String> = plan.iter().map(|e| e.path.clone()).collect();
    assert_eq!(paths, vec!["bin/".to_string(), "bin/app".to_string(), "README".to_string()]);
    assert!(plan[0].is_dir);
    assert!(!plan[1].is_dir);
}

#[test]
fn multi_root_archive_extracts_verbatim() {
    let entries = vec![entry("a/x", false), entry("b/y", false)];
    assert_eq!(detect_wrapper(&entries), None);
    let plan = extraction_plan(&entries).unwrap();
    let paths: Vec<String> = plan.iter().map(|e| e.path.clone()).collect();
    assert_eq!(paths, vec!["a/x".to_string(), "b/y".to_string()]);
}

#[test]
fn two_top_level_directories_defeat_detection() {
    let entries = vec![
        entry("a/", true),
        entry("a/x", false),
        entry("b/", true),
        entry("b/y", false),
    ];
    assert_eq!(detect_wrapper(&entries), None);
}

#[test]
fn leading_file_defeats_detection() {
    let entries = vec![entry("README", false), entry("root/", true)];
    assert_eq!(detect_wrapper(&entries), None);
}

#[test]
fn empty_archive_has_no_wrapper() {
    let entries: Vec<ArchiveEntry> = Vec::new();
    assert_eq!(detect_wrapper(&entries), None);
    assert!(extraction_plan(&entries).unwrap().is_empty());
}

#[test]
fn planned_path_strips_and_skips() {
    let wrapper = Some("root/".to_string());
    let stripped = planned_path(&entry("root/bin/app", false), &wrapper).unwrap();
    assert_eq!(stripped.path, "bin/app");
    // the wrapper entry itself is skipped
    assert!(planned_path(&entry("root/", true), &wrapper).is_none());
    // an entry outside the wrapper is skipped
    assert!(planned_path(&entry("other/file", false), &wrapper).is_none());
    // without a wrapper everything passes through
    let verbatim = planned_path(&entry("a/b", false), &None).unwrap();
    assert_eq!(verbatim.path, "a/b");
}

#[test]
fn traversal_attempts_are_refused() {
    let up = vec![entry("../evil", false)];
    assert!(matches!(extraction_plan(&up), Err(ExtractError::UnsafePath)));
    let abs = vec![entry("/etc/passwd", false)];
    assert!(matches!(extraction_plan(&abs), Err(ExtractError::UnsafePath)));
    let inner = vec![entry("a/../../evil", false)];
    assert!(matches!(extraction_plan(&inner), Err(ExtractError::UnsafePath)));
}

#[test]
fn traversal_hidden_under_a_wrapper_is_refused() {
    // after stripping `root/` the entry would climb out of the target
    let entries = vec![entry("root/", true), entry("root/../x", false)];
    assert!(matches!(extraction_plan(&entries), Err(ExtractError::UnsafePath)));
}

#[test]
fn safe_path_checks() {
    assert!(is_safe_rel("a/b/c.txt"));
    assert!(is_safe_rel("a..b/c"));
    assert!(is_safe_rel("..a/b"));
    assert!(is_safe_rel("a/b.."));
    assert!(!is_safe_rel(".."));
    assert!(!is_safe_rel("../x"));
    assert!(!is_safe_rel("x/.."));
    assert!(!is_safe_rel("x/../y"));
    assert!(!is_safe_rel("/absolute"));
}

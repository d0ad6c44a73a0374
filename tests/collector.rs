use repo_locator::collector::{
    add_size, is_hidden_directory, is_repository_mark_directory, scan_entry, size_entry,
    IgnoredPathCollector, WalkEntry,
};

fn dir(path: &str, parent: &str, name: &str, depth: usize) -> WalkEntry {
    WalkEntry {
        path: path.to_string(),
        parent: Some(parent.to_string()),
        file_name: Some(name.to_string()),
        depth,
        is_dir: true,
        is_symlink: false,
    }
}

#[test]
fn hidden_directory_is_not_entered() {
    let cache = dir("/a/.cache", "/a", ".cache", 2);
    assert!(is_hidden_directory(&cache));
    assert!(!is_repository_mark_directory(&cache));
    let step = scan_entry(&cache);
    assert!(step.skip_dir);
    assert!(step.repository.is_none());
}

#[test]
fn git_directory_marks_its_parent() {
    let git = dir("/a/.git", "/a", ".git", 2);
    assert!(is_repository_mark_directory(&git));
    let step = scan_entry(&git);
    assert_eq!(step.repository, Some("/a".to_string()));
    assert!(step.skip_dir);
}

#[test]
fn git_file_marks_nothing() {
    let mut git = dir("/a/.git", "/a", ".git", 2);
    git.is_dir = false;
    let step = scan_entry(&git);
    assert!(step.repository.is_none());
    assert!(!step.skip_dir);
}

#[test]
fn the_root_is_entered_even_when_hidden() {
    let root = dir(".", "", ".", 0);
    assert!(!scan_entry(&root).skip_dir);
    let plain = dir("/a/src", "/a", "src", 2);
    let step = scan_entry(&plain);
    assert!(!step.skip_dir);
    assert!(step.repository.is_none());
}

#[test]
fn sizes_skip_links_and_git_directories() {
    let mut link = dir("/a/t/l", "/a/t", "l", 1);
    link.is_symlink = true;
    let step = size_entry(&link);
    assert!(!step.counted && !step.skip_dir);
    let git = dir("/a/t/.git", "/a/t", ".git", 1);
    let step = size_entry(&git);
    assert!(!step.counted && step.skip_dir);
    let file = WalkEntry { is_dir: false, ..dir("/a/t/f", "/a/t", "f", 1) };
    let step = size_entry(&file);
    assert!(step.counted && !step.skip_dir);
}

#[test]
fn add_size_stops_at_the_largest() {
    assert_eq!(add_size(5, 7), 12);
    assert_eq!(add_size(u64::MAX - 1, 7), u64::MAX);
}

#[test]
fn collector_builds_the_repository() {
    let mut c = IgnoredPathCollector::new();
    c.record("/a/target".to_string(), 100);
    c.record("/a/node_modules".to_string(), 300);
    let r = c.finish("/a".to_string());
    assert_eq!(r.path(), "/a");
    assert_eq!(r.size(), 400);
    assert_eq!(r.ignored_path_infos().len(), 2);
    assert_eq!(r.ignored_path_infos()[1].path(), "/a/node_modules");
}

#[test]
fn collector_leaves_out_what_overflows() {
    let mut c = IgnoredPathCollector::new();
    c.record("/a/x".to_string(), u64::MAX - 1);
    c.record("/a/y".to_string(), 2);
    c.record("/a/z".to_string(), 1);
    let r = c.finish("/a".to_string());
    assert_eq!(r.size(), u64::MAX);
    assert_eq!(r.ignored_path_infos().len(), 2);
}

#[test]
fn collector_after_a_failure_has_nothing() {
    let mut c = IgnoredPathCollector::new();
    c.record("/a/x".to_string(), 10);
    c.fail();
    let r = c.finish("/a".to_string());
    assert_eq!(r.size(), 0);
    assert!(r.ignored_path_infos().is_empty());
}

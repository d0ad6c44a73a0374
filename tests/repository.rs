use repo_locator::{IgnoredPathInfo, Repository, RepositoryStore, StoreError};

fn repo(path: &str, infos: &[(&str, u64)]) -> Repository {
    Repository::new(
        path.to_string(),
        infos.iter().map(|(p, s)| IgnoredPathInfo::new(p.to_string(), *s)).collect(),
    )
}

fn summary(store: &RepositoryStore) -> Vec<(String, u64)> {
    store.repositories_sorted().iter().map(|r| (r.path().clone(), r.size())).collect()
}

#[test]
fn scan_sort_and_delete_scenario() {
    let mut store = RepositoryStore::new();
    store.add(repo("/a", &[("/a/x", 100), ("/a/y", 300)])).unwrap();
    store.add(repo("/b", &[("/b/z", 50)])).unwrap();
    assert_eq!(summary(&store), vec![("/a".to_string(), 400), ("/b".to_string(), 50)]);
    assert_eq!(store.filtered_len(), 2);

    let a = store.find_by_path(&"/a".to_string()).unwrap();
    let big = a.ignored_path_infos()[1].clone();
    store.clean_ignored_path(&a, &big);
    assert_eq!(summary(&store), vec![("/a".to_string(), 100), ("/b".to_string(), 50)]);
    let a = store.find_by_path(&"/a".to_string()).unwrap();
    assert_eq!(a.ignored_path_infos().len(), 1);
    assert_eq!(a.ignored_path_infos()[0].path(), "/a/x");

    let b = store.find_by_path(&"/b".to_string()).unwrap();
    for info in b.ignored_path_infos().clone() {
        store.clean_ignored_path(&b, &info);
    }
    assert_eq!(store.filtered_len(), 1);
    assert_eq!(store.find_by_path(&"/b".to_string()).unwrap().size(), 0);
}

#[test]
fn sorted_is_stable_for_equal_sizes() {
    let mut store = RepositoryStore::new();
    store.add(repo("/first", &[("/first/t", 10)])).unwrap();
    store.add(repo("/huge", &[("/huge/t", 90)])).unwrap();
    store.add(repo("/second", &[("/second/t", 4), ("/second/u", 6)])).unwrap();
    store.add(repo("/empty", &[])).unwrap();
    store.add(repo("/third", &[("/third/t", 10)])).unwrap();
    let order: Vec<String> = store.repositories_sorted().iter().map(|r| r.path().clone()).collect();
    assert_eq!(order, vec!["/huge", "/first", "/second", "/third", "/empty"]);
    let found: Vec<String> = store.repositories().iter().map(|r| r.path().clone()).collect();
    assert_eq!(found, vec!["/first", "/huge", "/second", "/empty", "/third"]);
}

#[test]
fn filtered_len_counts_nonempty_repositories() {
    let mut store = RepositoryStore::new();
    assert_eq!(store.filtered_len(), 0);
    store.add(repo("/a", &[])).unwrap();
    store.add(repo("/b", &[("/b/t", 0)])).unwrap();
    store.add(repo("/c", &[("/c/t", 1)])).unwrap();
    assert_eq!(store.filtered_len(), 1);
}

#[test]
fn add_refuses_a_known_root() {
    let mut store = RepositoryStore::new();
    assert_eq!(store.add(repo("/a", &[("/a/t", 1)])), Ok(()));
    assert_eq!(store.add(repo("/a", &[("/a/u", 7)])), Err(StoreError::DuplicatePath));
    assert_eq!(store.repositories().len(), 1);
    assert_eq!(store.repositories()[0].size(), 1);
}

#[test]
fn find_by_path_of_an_unknown_root() {
    let mut store = RepositoryStore::new();
    store.add(repo("/a", &[])).unwrap();
    assert!(store.find_by_path(&"/b".to_string()).is_none());
    assert!(store.find_by_path(&"/a".to_string()).is_some());
}

#[test]
fn cleaning_twice_changes_nothing_more() {
    let mut store = RepositoryStore::new();
    store.add(repo("/a", &[("/a/x", 3), ("/a/y", 4), ("/a/empty", 0)])).unwrap();
    let a = store.find_by_path(&"/a".to_string()).unwrap();
    let x = a.ignored_path_infos()[0].clone();
    store.clean_ignored_path(&a, &x);
    let once = store.find_by_path(&"/a".to_string()).unwrap();
    assert_eq!(once.size(), 4);
    assert_eq!(once.ignored_path_infos().len(), 1);
    store.clean_ignored_path(&a, &x);
    let twice = store.find_by_path(&"/a".to_string()).unwrap();
    assert_eq!(twice.size(), 4);
    assert_eq!(twice.ignored_path_infos().len(), 1);
}

#[test]
fn cleaning_touches_only_the_named_repository() {
    let mut store = RepositoryStore::new();
    store.add(repo("/a", &[("/shared", 3)])).unwrap();
    store.add(repo("/b", &[("/shared", 5)])).unwrap();
    let a = store.find_by_path(&"/a".to_string()).unwrap();
    let info = a.ignored_path_infos()[0].clone();
    store.clean_ignored_path(&a, &info);
    assert_eq!(store.find_by_path(&"/a".to_string()).unwrap().size(), 0);
    assert_eq!(store.find_by_path(&"/b".to_string()).unwrap().size(), 5);
}

#[test]
fn repository_size_sums_its_paths() {
    let r = repo("/a", &[("/a/x", 7), ("/a/y", 11), ("/a/z", 0)]);
    assert_eq!(r.size(), 18);
    assert_eq!(r.path(), "/a");
    let info = IgnoredPathInfo::new("/a/x".to_string(), 7);
    assert_eq!(info.path(), "/a/x");
    assert_eq!(info.size(), 7);
    let copy = r.clone();
    assert_eq!(copy.size(), 18);
    assert_eq!(copy.ignored_path_infos().len(), 3);
}

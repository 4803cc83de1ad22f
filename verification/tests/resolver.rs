use rsrv::file_store::FileStore;
use rsrv::filelike::FileLike;
use rsrv::static_directory_manager::StaticDirectoryManager;

fn manager() -> StaticDirectoryManager {
    StaticDirectoryManager {
        directories: vec!["/srv/a".to_string(), "/srv/b".to_string()],
        backup_file: "403.html".to_string(),
    }
}

fn text_of(file: &FileLike) -> &str {
    match file {
        FileLike::TextFile(s) => s.as_str(),
        _ => panic!("expected a text file"),
    }
}

#[test]
fn first_approved_directory_wins() {
    let mut store = FileStore::new();
    store.add(
        "/srv/a/index.html".to_string(),
        FileLike::TextFile("from a".to_string()),
    );
    store.add(
        "/srv/b/index.html".to_string(),
        FileLike::TextFile("from b".to_string()),
    );
    let found = manager()
        .search_for_file_path_in_approved_directories("/index.html", &store)
        .unwrap();
    assert_eq!(text_of(&found), "from a");
}

#[test]
fn later_directories_are_consulted_when_earlier_ones_miss() {
    let mut store = FileStore::new();
    store.add(
        "/srv/b/only.html".to_string(),
        FileLike::TextFile("from b".to_string()),
    );
    let found = manager()
        .search_for_file_path_in_approved_directories("/only.html", &store)
        .unwrap();
    assert_eq!(text_of(&found), "from b");
}

#[test]
fn a_path_absent_everywhere_fails() {
    let store = FileStore::new();
    assert!(manager()
        .search_for_file_path_in_approved_directories("/nope.html", &store)
        .is_err());
}

#[test]
fn traversal_segments_are_rejected() {
    let mut store = FileStore::new();
    store.add(
        "/srv/a/../secret.txt".to_string(),
        FileLike::TextFile("secret".to_string()),
    );
    assert!(manager()
        .search_for_file_path_in_approved_directories("/../secret.txt", &store)
        .is_err());
}

#[test]
fn containment_requires_an_approved_prefix() {
    let m = manager();
    assert!(m.has("/srv/a/index.html"));
    assert!(m.has("/srv/b/deep/nested/file.css"));
    assert!(m.has("/srv/a"));
    assert!(!m.has("/etc/passwd"));
    assert!(!m.has("/srv/a/../outside.txt"));
}

#[test]
fn sibling_directories_with_a_shared_prefix_are_rejected() {
    let m = StaticDirectoryManager {
        directories: vec!["/srv/public".to_string()],
        backup_file: "403.html".to_string(),
    };
    assert!(m.has("/srv/public/index.html"));
    assert!(!m.has("/srv/public_backup/secret"));

    let mut store = FileStore::new();
    store.add(
        "/srv/public_backup/secret".to_string(),
        FileLike::TextFile("secret".to_string()),
    );
    assert!(m
        .search_for_file_path_in_approved_directories("_backup/secret", &store)
        .is_err());
}

#[test]
fn get_file_rejects_unapproved_paths_with_the_path_named() {
    let mut store = FileStore::new();
    store.add(
        "/etc/passwd".to_string(),
        FileLike::TextFile("x".to_string()),
    );
    let err = manager().get_file("/etc/passwd", &store).unwrap_err();
    assert_eq!(err.path.as_str(), "/etc/passwd");
}

#[test]
fn get_file_serves_approved_stored_paths() {
    let mut store = FileStore::new();
    store.add(
        "/srv/a/x.html".to_string(),
        FileLike::TextFile("x".to_string()),
    );
    let file = manager().get_file("/srv/a/x.html", &store).unwrap();
    assert_eq!(text_of(&file), "x");
}

#[test]
fn store_lookup_prefers_the_first_entry() {
    let mut store = FileStore::new();
    store.add("/p".to_string(), FileLike::TextFile("first".to_string()));
    store.add("/p".to_string(), FileLike::TextFile("second".to_string()));
    assert_eq!(text_of(store.get("/p").unwrap()), "first");
    assert!(store.get("/q").is_none());
}

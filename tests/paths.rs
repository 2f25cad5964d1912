use sync2bucket::paths::{base_name, is_directory_marker, join_path, local_path, local_relative, remote_key};
use sync2bucket::storage::{full_key, relative_key, CloudFolder, S3Object};

#[test]
fn base_names_of_roots() {
    assert_eq!(base_name("photos/"), "photos");
    assert_eq!(base_name("/home/me/photos"), "photos");
    assert_eq!(base_name("a/b/c//"), "c");
    assert_eq!(base_name("/"), "folder");
    assert_eq!(base_name(""), "folder");
    assert_eq!(base_name("a/.."), "folder");
    assert_eq!(base_name("a/."), "a");
    assert_eq!(base_name("a/./"), "a");
    assert_eq!(base_name("a/./."), "a");
    assert_eq!(base_name("."), "folder");
    assert_eq!(base_name("./"), "folder");
    assert_eq!(base_name("/."), "folder");
    assert_eq!(base_name("b."), "b.");
}

#[test]
fn remote_keys_use_forward_slashes() {
    assert_eq!(remote_key("photos", "beach/sunset.jpg"), "photos/beach/sunset.jpg");
}

#[test]
fn directory_markers() {
    assert!(is_directory_marker("archive/"));
    assert!(!is_directory_marker("archive/notes.txt"));
    assert!(!is_directory_marker(""));
}

#[test]
fn local_paths_of_downloads() {
    assert_eq!(local_relative("archive", "archive/notes.txt"), "notes.txt");
    assert_eq!(local_relative("archive/", "archive/notes.txt"), "notes.txt");
    assert_eq!(local_relative("other", "archive/notes.txt"), "archive/notes.txt");
    assert_eq!(join_path("/tmp/t", "a"), "/tmp/t/a");
    assert_eq!(join_path("/tmp/t/", "a"), "/tmp/t/a");
    assert_eq!(join_path("", "a"), "a");
    assert_eq!(local_path("archive", "archive/notes.txt", "/tmp/t"), "/tmp/t/notes.txt");
}

#[test]
fn path_round_trip() {
    let base = base_name("/data/R");
    let key = remote_key(&base, "a/b.txt");
    assert_eq!(key, "R/a/b.txt");
    assert_eq!(local_path(&base, &key, "/target"), "/target/a/b.txt");
    assert_eq!(local_path("R/", &key, "/target"), "/target/a/b.txt");
}

#[test]
fn namespace_keys() {
    assert_eq!(full_key("users/u_1/", "a/b"), "users/u_1/a/b");
    assert_eq!(relative_key("users/u_1/", "users/u_1/a/b"), "a/b");
    assert_eq!(relative_key("users/u_1/", "other/a"), "other/a");
}

#[test]
fn folder_summary() {
    let objects = vec![
        S3Object { key: "docs/a".to_string(), size: 3, last_modified: 0 },
        S3Object { key: "docs/b".to_string(), size: 4, last_modified: 0 },
    ];
    let f = CloudFolder::summarize("docs/".to_string(), &objects).unwrap();
    assert_eq!(f.name, "docs");
    assert_eq!(f.path, "docs/");
    assert_eq!(f.total_size, 7);
    assert_eq!(f.file_count, 2);
    let huge = vec![
        S3Object { key: "x/a".to_string(), size: u64::MAX, last_modified: 0 },
        S3Object { key: "x/b".to_string(), size: 1, last_modified: 0 },
    ];
    assert_eq!(CloudFolder::summarize("x/".to_string(), &huge), None);
}

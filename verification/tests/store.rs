use aytest1::store::{check_name, NameError, StorageRoot};

#[test]
fn names_are_joined_to_the_root() {
    let store = StorageRoot::new("/tmp/store".to_string());
    assert_eq!(store.path(), "/tmp/store");
    assert_eq!(store.resolve("a.txt"), Ok("/tmp/store/a.txt".to_string()));
    assert_eq!(store.resolve("dir/b.bin"), Ok("/tmp/store/dir/b.bin".to_string()));
}

#[test]
fn no_second_separator_after_an_open_root() {
    let store = StorageRoot::new("/tmp/store/".to_string());
    assert_eq!(store.resolve("a.txt"), Ok("/tmp/store/a.txt".to_string()));
    let here = StorageRoot::new(String::new());
    assert_eq!(here.resolve("a.txt"), Ok("a.txt".to_string()));
}

#[test]
fn resolved_paths_agree_with_path_join() {
    for root in ["/tmp/store", "/tmp/store/", "rel", ""] {
        for name in ["a.txt", "x/y", "..a", "a..", "a/.../b", ".", "a//b"] {
            let store = StorageRoot::new(root.to_string());
            let joined = std::path::Path::new(root).join(name);
            assert_eq!(store.resolve(name).unwrap(), joined.to_str().unwrap());
        }
    }
}

#[test]
fn escaping_names_are_refused() {
    let store = StorageRoot::new("/tmp/store".to_string());
    assert_eq!(store.resolve(""), Err(NameError::Empty));
    assert_eq!(store.resolve("/etc/passwd"), Err(NameError::Absolute));
    assert_eq!(store.resolve("/"), Err(NameError::Absolute));
    assert_eq!(store.resolve("/.."), Err(NameError::Absolute));
    for name in ["..", "../x", "a/..", "a/../b", "a/b/../../..", "./.."] {
        assert_eq!(store.resolve(name), Err(NameError::Traversal));
        assert_eq!(check_name(name), Err(NameError::Traversal));
    }
}

#[test]
fn dots_inside_components_are_no_traversal() {
    for name in ["..a", "a..", "a..b", "...", "a/...", ".../a", ".", "./a", "a/.b", "..\u{e9}"] {
        assert_eq!(check_name(name), Ok(()));
    }
}

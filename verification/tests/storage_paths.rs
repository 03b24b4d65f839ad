use shelfie::ident::StoredObjectId;
use shelfie::storage::{get_filename, path_of, resolve_root, StorageRoot, SEPARATOR};

#[test]
fn the_configured_directory_comes_first() {
    let root = resolve_root(Some("/srv/shelf".to_string()), Some("/home/me".to_string()));
    assert_eq!(root.unwrap().as_str(), "/srv/shelf");
}

#[test]
fn the_configured_directory_needs_no_working_directory() {
    let root = resolve_root(Some("/srv/shelf".to_string()), None);
    assert_eq!(root.unwrap().as_str(), "/srv/shelf");
}

#[test]
fn the_working_directory_is_the_fallback() {
    let root = resolve_root(None, Some("/home/me".to_string()));
    assert_eq!(root.unwrap().as_str(), "/home/me");
}

#[test]
fn without_either_directory_there_is_no_root() {
    assert_eq!(resolve_root(None, None), None);
}

#[test]
fn the_separator_is_a_slash() {
    assert_eq!(SEPARATOR, '/');
}

#[test]
fn an_entry_lies_directly_under_the_root() {
    let root = StorageRoot::new("/srv/shelf".to_string());
    let id = StoredObjectId::parse("abcDEF0123456789").unwrap();
    assert_eq!(path_of(&root, &id), "/srv/shelf/abcDEF0123456789");
}

#[test]
fn a_root_that_ends_in_a_separator_gets_no_second_one() {
    let root = StorageRoot::new("/srv/shelf/".to_string());
    let id = StoredObjectId::parse("abcDEF0123456789").unwrap();
    assert_eq!(path_of(&root, &id), "/srv/shelf/abcDEF0123456789");
    let top = StorageRoot::new("/".to_string());
    assert_eq!(path_of(&top, &id), "/abcDEF0123456789");
}

#[test]
fn an_empty_root_leaves_the_bare_name() {
    let root = StorageRoot::new(String::new());
    let id = StoredObjectId::parse("abcDEF0123456789").unwrap();
    assert_eq!(path_of(&root, &id), "abcDEF0123456789");
}

#[test]
fn a_root_outside_ascii_is_kept_as_it_is() {
    let root = StorageRoot::new("/srv/r\u{e9}serve".to_string());
    let id = StoredObjectId::parse("abcDEF0123456789").unwrap();
    assert_eq!(path_of(&root, &id), "/srv/r\u{e9}serve/abcDEF0123456789");
}

#[test]
fn paths_agree_with_the_standard_library() {
    for dir in ["/srv/shelf", "/srv/shelf/", "/", "", "relative/dir", "/a//"] {
        let root = StorageRoot::new(dir.to_string());
        let id = StoredObjectId::generate();
        let mut expected = std::path::PathBuf::new();
        expected.push(dir);
        expected.push(id.as_str());
        assert_eq!(path_of(&root, &id), expected.to_str().unwrap());
    }
}

#[test]
fn get_filename_gives_a_fresh_name_and_its_path() {
    let root = StorageRoot::new("/srv/shelf".to_string());
    let (id, path) = get_filename(&root);
    assert_eq!(id.as_str().len(), 16);
    assert!(id.as_str().chars().all(|c| c.is_ascii_alphanumeric()));
    assert_eq!(path, format!("/srv/shelf/{}", id.as_str()));
    assert_eq!(path, path_of(&root, &id));
}

#[test]
fn distinct_names_have_distinct_paths() {
    let root = StorageRoot::new("/srv/shelf".to_string());
    let a = StoredObjectId::parse("abcDEF0123456789").unwrap();
    let b = StoredObjectId::parse("abcDEF0123456780").unwrap();
    assert_ne!(path_of(&root, &a), path_of(&root, &b));
}

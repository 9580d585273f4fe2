use master::digest::{sha1_hex, sha256_bytes};
use master::store::{download_matches, download_needed, should_write, FileStore, StoredFile};

#[test]
fn digests_are_lowercase_hex() {
    assert_eq!(sha1_hex(b"hello"), "aaf4c61ddcc5e8a2dabede0f3b482cd9aea9434d");
    assert_eq!(sha256_bytes(b""), "e3b0c44298fc1c149afbf4c8996fb92427ae41e4649b934ca495991b7852b855");
}

#[test]
fn objects_live_under_two_levels_of_prefix() {
    let store = FileStore::new("/srv/data");
    assert_eq!(store.root, "/srv/data/files");
    let sha1 = "aaf4c61ddcc5e8a2dabede0f3b482cd9aea9434d";
    assert_eq!(store.path_for(sha1), format!("/srv/data/files/aa/f4/{sha1}"));
    assert_eq!(store.tmp_path_for(sha1), format!("/srv/data/files/aa/f4/{sha1}.tmp"));
    assert_eq!(FileStore::new("data/").root, "data/files");
}

#[test]
fn the_same_content_gets_the_same_address() {
    let first = FileStore::address(b"hello");
    let again = FileStore::address(b"hello");
    assert_eq!(first.sha1, again.sha1);
    assert_eq!(first.size, 5);
    assert_ne!(FileStore::address(b"real content").sha1, first.sha1);
}

#[test]
fn a_plain_write_keeps_what_is_stored_and_an_overwrite_replaces_it() {
    assert!(should_write(false, false));
    assert!(!should_write(false, true));
    assert!(should_write(true, true));
}

#[test]
fn a_download_is_skipped_only_for_a_known_stored_name() {
    assert!(!download_needed(Some("aa"), false, true));
    assert!(download_needed(Some("aa"), true, true));
    assert!(download_needed(None, false, true));
    assert!(download_needed(Some("aa"), false, false));
}

#[test]
fn a_download_must_match_the_expected_name_up_to_case() {
    let stored = StoredFile { sha1: "aaf4c61ddcc5e8a2dabede0f3b482cd9aea9434d".into(), size: 5 };
    assert!(download_matches(Some("AAF4C61DDCC5E8A2DABEDE0F3B482CD9AEA9434D"), &stored));
    assert!(!download_matches(Some("da39a3ee5e6b4b0d3255bfef95601890afd80709"), &stored));
    assert!(download_matches(None, &stored));
}

#[test]
fn different_names_get_different_paths() {
    let store = FileStore::new("/srv/data");
    let a = store.path_for("aaf4c61ddcc5e8a2dabede0f3b482cd9aea9434d");
    let b = store.path_for("aaf4c61ddcc5e8a2dabede0f3b482cd9aea9434e");
    assert_ne!(a, b);
}

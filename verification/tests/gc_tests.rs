use master::gc::{collect_orphans, is_sha1, quote_ident, StoreEntry, MIN_AGE_SECS, SAMPLE_LIMIT};

#[test]
fn accepts_only_lowercase_forty_hex_names() {
    assert!(is_sha1("da39a3ee5e6b4b0d3255bfef95601890afd80709"));

    assert!(
        !is_sha1("da39a3ee5e6b4b0d3255bfef95601890afd807"),
        "39 символов"
    );
    assert!(
        !is_sha1("da39a3ee5e6b4b0d3255bfef95601890afd8070900"),
        "42 символа"
    );
    assert!(
        !is_sha1("DA39A3EE5E6B4B0D3255BFEF95601890AFD80709"),
        "верхний регистр"
    );
    assert!(
        !is_sha1("da39a3ee5e6b4b0d3255bfef95601890afd8070g"),
        "не hex"
    );
    assert!(!is_sha1(""), "пустое имя");
}

#[test]
fn ignores_names_that_are_not_objects() {
    assert!(!is_sha1("tmp-upload.part"));
    assert!(!is_sha1("mods"));
    assert!(!is_sha1("da39a3ee5e6b4b0d3255bfef95601890afd80709.tmp"));
}

#[test]
fn identifiers_are_escaped_for_sql() {
    assert_eq!(quote_ident("build_files"), "\"build_files\"");
    assert_eq!(quote_ident("we\"ird"), "\"we\"\"ird\"");
}

fn entry(name: &str, is_file: bool, meta: Option<(Option<u64>, u64)>) -> StoreEntry {
    StoreEntry {
        name: name.to_string(),
        path: format!("/data/files/{name}"),
        is_file,
        meta,
    }
}

const LIVE: &str = "aaf4c61ddcc5e8a2dabede0f3b482cd9aea9434d";
const DEAD: &str = "da39a3ee5e6b4b0d3255bfef95601890afd80709";
const YOUNG: &str = "18f5b7af1be2c65820160f1ab4dbe4645e1ec2a8";

#[test]
fn only_old_unreferenced_objects_are_orphans() {
    let old = Some((Some(MIN_AGE_SECS + 1), 100));
    let entries = vec![
        entry(LIVE, true, old),
        entry(DEAD, true, old),
        entry(YOUNG, true, Some((Some(60), 7))),
        entry("mods", false, old),
        entry("tmp-upload.part", true, old),
        entry(&format!("{DEAD}.tmp"), true, old),
        entry("ffffffffffffffffffffffffffffffffffffffff", true, None),
    ];
    let live = vec![LIVE.to_string()];
    let (report, paths) = collect_orphans(&entries, &live, false);
    assert_eq!(report.orphan_count, 1);
    assert_eq!(report.orphan_bytes, 100);
    assert!(!report.deleted);
    assert_eq!(report.sample, vec![DEAD.to_string()]);
    assert_eq!(paths, vec![format!("/data/files/{DEAD}")]);
}

#[test]
fn an_object_of_unknown_age_is_kept() {
    let entries = vec![entry(DEAD, true, Some((None, 5)))];
    let (report, paths) = collect_orphans(&entries, &[], true);
    assert_eq!(report.orphan_count, 0);
    assert!(report.deleted);
    assert!(paths.is_empty());
}

#[test]
fn the_sample_stops_at_its_limit() {
    let old = Some((Some(MIN_AGE_SECS), 1));
    let names: Vec<String> = (0..30).map(|i| format!("{:040x}", i)).collect();
    let entries: Vec<StoreEntry> = names.iter().map(|n| entry(n, true, old)).collect();
    let (report, paths) = collect_orphans(&entries, &[], true);
    assert_eq!(report.orphan_count, 30);
    assert_eq!(report.orphan_bytes, 30);
    assert_eq!(report.sample.len(), SAMPLE_LIMIT);
    assert_eq!(report.sample[0], names[0]);
    assert_eq!(paths.len(), 30);
}

#[test]
fn a_column_scan_quotes_its_identifiers() {
    assert_eq!(
        master::gc::column_scan_sql("builds", "we\"ird"),
        "SELECT DISTINCT m[1] AS sha1\n               FROM \"builds\", LATERAL regexp_matches(\"builds\".\"we\"\"ird\", '[0-9a-f]{40}', 'g') AS m"
    );
}

#[test]
fn different_identifiers_quote_differently() {
    assert_ne!(quote_ident("a\"b"), quote_ident("a\"\"b"));
    assert_ne!(quote_ident(""), quote_ident("\""));
    assert_eq!(quote_ident(""), "\"\"");
}

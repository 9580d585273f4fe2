use master::migrations::{
    is_migration, latest_version, migration_version, migrations, migrations_dir, sort_migrations,
    versions_unique,
};

#[test]
fn the_directory_sits_beside_the_manifest() {
    assert_eq!(migrations_dir("/src/crates/master"), "/src/crates/master/migrations");
    assert_eq!(migrations_dir("/src/crates/master/"), "/src/crates/master/migrations");
}

#[test]
fn a_migration_is_numbered_sql() {
    assert!(is_migration("0001_init.sql"));
    assert!(!is_migration("README.md"));
    assert_eq!(migration_version("0021_rules.sql"), Some(21));
    assert_eq!(migration_version("7.sql"), None);
    assert_eq!(migration_version("x_rules.sql"), None);
}

#[test]
fn files_that_are_not_migrations_are_skipped() {
    let names: Vec<String> = ["0002_b.sql", "notes.txt", "0001_a.sql"].iter().map(|s| s.to_string()).collect();
    let found = migrations(&names).unwrap();
    assert_eq!(found, vec![(1, "0001_a.sql".to_string()), (2, "0002_b.sql".to_string())]);
    assert!(versions_unique(&found));
}

#[test]
fn a_migration_without_a_number_is_an_error() {
    let names: Vec<String> = ["0001_a.sql", "init.sql"].iter().map(|s| s.to_string()).collect();
    assert_eq!(migrations(&names), Err("init.sql".to_string()));
}

#[test]
fn a_shared_number_is_caught() {
    let found = vec![(21, "0021_a.sql".to_string()), (22, "0022_b.sql".to_string()), (21, "0021_c.sql".to_string())];
    assert!(!versions_unique(&found));
    assert!(versions_unique(&[]));
}

#[test]
fn the_latest_version_is_the_largest() {
    assert_eq!(latest_version(&[3, 58, 12]), 58);
    assert_eq!(latest_version(&[]), 0);
}

#[test]
fn migrations_come_by_number_then_name() {
    let names: Vec<String> = ["0010_j.sql", "0002_b.sql", "0021_z.sql", "0021_c.sql", "2_a.sql"]
        .iter()
        .map(|s| s.to_string())
        .collect();
    let found = migrations(&names).unwrap();
    let order: Vec<&str> = found.iter().map(|(_, n)| n.as_str()).collect();
    assert_eq!(order, vec!["0002_b.sql", "2_a.sql", "0010_j.sql", "0021_c.sql", "0021_z.sql"]);
    assert!(!versions_unique(&found));
    let e = |v: u32, n: &str| (v, n.to_string());
    assert_eq!(
        sort_migrations(vec![e(3, "b"), e(3, "a"), e(1, "zz"), e(3, "ab"), e(1, "z")]),
        vec![e(1, "z"), e(1, "zz"), e(3, "a"), e(3, "ab"), e(3, "b")]
    );
    assert!(sort_migrations(vec![]).is_empty());
}

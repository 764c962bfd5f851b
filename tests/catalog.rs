use poleshift::catalog::{build_catalog, decompressed_file_name, join_path, CatalogEntry};
use poleshift::error::PoleshiftError;
use poleshift::kraken::KrakenConfig;

fn entry(name: &str, compressed: bool) -> CatalogEntry {
    CatalogEntry {
        file_name: name.to_string(),
        file_url: format!("https://host/{}", name),
        checksum_compressed: "c".to_string(),
        checksum_decompressed: "d".to_string(),
        compressed,
    }
}

#[test]
fn decompressed_name_drops_gz_suffixes() {
    assert_eq!(decompressed_file_name("database.kdb.gz", true), "database.kdb");
    assert_eq!(decompressed_file_name("a.gz.gz", true), "a");
    assert_eq!(decompressed_file_name("taxDB.gz", false), "taxDB.gz");
    assert_eq!(decompressed_file_name("plain", true), "plain");
}

#[test]
fn paths_are_joined_like_directories() {
    assert_eq!(join_path("/res", "x"), "/res/x");
    assert_eq!(join_path("/res/", "x"), "/res/x");
    assert_eq!(join_path("", "x"), "x");
    assert_eq!(join_path("/res", "/abs/x"), "/abs/x");
}

#[test]
fn catalog_records_become_descriptors() {
    let rs = build_catalog("/res", &vec![entry("database.idx.gz", true), entry("taxDB", false)]).unwrap();
    assert_eq!(rs.len(), 2);
    assert_eq!(rs[0].file_name, "database.idx.gz");
    assert_eq!(rs[0].file_url, "https://host/database.idx.gz");
    assert_eq!(rs[0].file_path, "/res/database.idx");
    assert_eq!(rs[0].checksum_compressed, "c");
    assert_eq!(rs[0].checksum_decompressed, "d");
    assert!(rs[0].compressed);
    assert_eq!(rs[1].file_path, "/res/taxDB");
    assert!(!rs[1].compressed);
}

#[test]
fn catalog_with_shared_final_path_is_refused() {
    let r = build_catalog("/res", &vec![entry("db.gz", true), entry("db.gz.gz", true)]);
    assert!(matches!(r, Err(PoleshiftError::Configuration(_))));
}

#[test]
fn catalog_with_repeated_name_is_refused() {
    let r = build_catalog("/res", &vec![entry("db.gz", false), entry("db.gz", false)]);
    assert!(matches!(r, Err(PoleshiftError::Configuration(_))));
}

#[test]
fn decompressing_onto_own_archive_is_refused() {
    let r = build_catalog("/res", &vec![entry("db", true)]);
    assert!(matches!(r, Err(PoleshiftError::Configuration(_))));
}

#[test]
fn empty_catalog_is_fine() {
    assert!(build_catalog("/res", &vec![]).unwrap().is_empty());
}

#[test]
fn hardcoded_kraken_layout() {
    let c = KrakenConfig::hardcoded("/res", "/out/report.txt", vec!["a.fastq".to_string()]);
    assert_eq!(c.db_file, "/res/database.kdb");
    assert_eq!(c.idx_file, "/res/database.idx");
    assert_eq!(c.taxdb_file, "/res/taxDB");
    assert_eq!(c.counts_file, "/res/database.kdb.counts");
    assert_eq!(c.threads, 1);
    assert_eq!(c.report_file, "/out/report.txt");
    assert_eq!(c.input_files, vec!["a.fastq".to_string()]);
    let t = c.archive_targets();
    assert_eq!(t.len(), 4);
    assert_eq!(t[0], ("/res/database.kdb.gz".to_string(), "/res/database.kdb".to_string()));
    assert_eq!(t[3].0, "/res/database.kdb.counts.gz");
}

#[test]
fn builtin_catalog_lists_the_database_files() {
    let c = poleshift::catalog::builtin_catalog();
    let names: Vec<&str> = c.iter().map(|e| e.file_name.as_str()).collect();
    assert_eq!(names, vec!["database.kdb.gz", "database.kdb.counts.gz", "database.idx.gz", "taxDB.gz"]);
    assert_eq!(c[3].file_url, "https://example.com/taxDB.gz");
    assert!(c.iter().all(|e| e.compressed && e.checksum_compressed.is_empty()));
    let rs = build_catalog("", &c).unwrap();
    assert_eq!(rs[0].file_path, "database.kdb");
    assert_eq!(rs[1].file_path, "database.kdb.counts");
}

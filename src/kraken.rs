//! Settings and results of the sequence classifier.

use vstd::prelude::*;
use crate::catalog::{join_path, joined, GZ_SUFFIX};

verus! {

/// Paths of the classifier's database files, and what to classify.
#[derive(Debug)]
pub struct KrakenConfig {
    pub db_file: String,
    pub idx_file: String,
    pub taxdb_file: String,
    pub counts_file: String,
    pub threads: u32,
    pub report_file: String,
    pub input_files: Vec<String>,
}

/// The classifier's report as handed to the front end.
#[derive(Debug)]
pub struct KrakenReport {
    pub report_path: String,
    pub report_content: String,
    pub status: String,
}

/// One classified read of the classifier's standard output.
#[derive(Debug)]
pub struct ProcessedKrakenUniqStdout {
    pub id: String,
    pub classified: bool,
    pub feature_id: String,
    pub tax_id: i32,
    pub read_length: i32,
    pub hit_data: String,
    pub user_id: String,
    pub org_id: String,
    pub sample_id: String,
    pub processed_data_id: String,
}

impl KrakenConfig {
    /// The standard database layout under `resource_dir`, one thread.
    pub fn hardcoded(resource_dir: &str, report_path: &str, input_files: Vec<String>) -> (r: Self)
        ensures
            r.db_file@ == joined(resource_dir@, "database.kdb"@),
            r.idx_file@ == joined(resource_dir@, "database.idx"@),
            r.taxdb_file@ == joined(resource_dir@, "taxDB"@),
            r.counts_file@ == joined(resource_dir@, "database.kdb.counts"@),
            r.threads == 1,
            r.report_file@ == report_path@,
            r.input_files@ == input_files@,
    {
        KrakenConfig {
            db_file: join_path(resource_dir, "database.kdb"),
            idx_file: join_path(resource_dir, "database.idx"),
            taxdb_file: join_path(resource_dir, "taxDB"),
            counts_file: join_path(resource_dir, "database.kdb.counts"),
            threads: 1,
            report_file: String::from_str(report_path),
            input_files,
        }
    }

    /// The database files as (archive, target) pairs: where an archive
    /// exists, it is to be decompressed into its target and then removed.
    pub fn archive_targets(&self) -> (r: Vec<(String, String)>)
        ensures
            r@.len() == 4,
            r@[0].1@ == self.db_file@ && r@[0].0@ == self.db_file@ + GZ_SUFFIX@,
            r@[1].1@ == self.idx_file@ && r@[1].0@ == self.idx_file@ + GZ_SUFFIX@,
            r@[2].1@ == self.taxdb_file@ && r@[2].0@ == self.taxdb_file@ + GZ_SUFFIX@,
            r@[3].1@ == self.counts_file@ && r@[3].0@ == self.counts_file@ + GZ_SUFFIX@,
    {
        let mut r: Vec<(String, String)> = Vec::new();
        r.push((String::from_str(self.db_file.as_str()).concat(GZ_SUFFIX), self.db_file.clone()));
        r.push((String::from_str(self.idx_file.as_str()).concat(GZ_SUFFIX), self.idx_file.clone()));
        r.push(
            (String::from_str(self.taxdb_file.as_str()).concat(GZ_SUFFIX), self.taxdb_file.clone()),
        );
        r.push(
            (
                String::from_str(self.counts_file.as_str()).concat(GZ_SUFFIX),
                self.counts_file.clone(),
            ),
        );
        r
    }
}

} // verus!

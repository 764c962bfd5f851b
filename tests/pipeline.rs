use std::collections::HashMap;

use poleshift::catalog::{build_catalog, staged_path, CatalogEntry, ResourceFiles};
use poleshift::digest::sha256_of_bytes;
use poleshift::error::PoleshiftError;
use poleshift::orchestrator::{first_error, paths_of, ResourceTask};
use poleshift::stager::{Action, ArtifactKind, Event, Stager};

/// An in-memory disk and server, counting the work done on them.
struct World {
    disk: HashMap<String, Vec<u8>>,
    server: HashMap<String, Vec<u8>>,
    downloads: usize,
    decompressions: usize,
    hashes: usize,
    /// Committed-path contents seen after every action.
    observed: Vec<Option<Vec<u8>>>,
}

/// Stand-in for gunzip: every byte four times.
fn inflate(b: &[u8]) -> Vec<u8> {
    b.iter().flat_map(|x| [*x, *x, *x, *x]).collect()
}

impl World {
    fn new() -> Self {
        World {
            disk: HashMap::new(),
            server: HashMap::new(),
            downloads: 0,
            decompressions: 0,
            hashes: 0,
            observed: Vec::new(),
        }
    }

    fn run(&mut self, dir: &str, res: &ResourceFiles) -> Result<(), PoleshiftError> {
        let paths = paths_of(dir, res);
        let mut task = ResourceTask::new(res);
        let mut steps = 0;
        while let Some((kind, action)) = task.next_request() {
            steps += 1;
            assert!(steps < 100, "the pipeline does not terminate");
            let (committed, staged) = match kind {
                ArtifactKind::Compressed => (&paths.compressed, &paths.compressed_staged),
                ArtifactKind::Decompressed => (&paths.final_path, &paths.final_staged),
            };
            let ev = match action {
                Action::Probe => Event::Probed {
                    committed: self.disk.contains_key(committed),
                    staged: self.disk.contains_key(staged),
                    precursor: self.disk.contains_key(&paths.compressed),
                },
                Action::Hash => {
                    self.hashes += 1;
                    match self.disk.get(staged) {
                        Some(c) => Event::Hashed(sha256_of_bytes(c)),
                        None => Event::HashFailed("missing".to_string()),
                    }
                }
                Action::Produce => match kind {
                    ArtifactKind::Compressed => {
                        self.downloads += 1;
                        match self.server.get(&res.file_url) {
                            Some(body) => {
                                self.disk.insert(staged.clone(), body.clone());
                                Event::Produced
                            }
                            None => Event::ProduceFailed(PoleshiftError::Network("404".to_string())),
                        }
                    }
                    ArtifactKind::Decompressed => {
                        self.decompressions += 1;
                        let out = inflate(&self.disk[&paths.compressed]);
                        self.disk.insert(staged.clone(), out);
                        Event::Produced
                    }
                },
                Action::Remove => {
                    self.disk.remove(staged);
                    Event::Removed
                }
                Action::Commit => match self.disk.remove(staged) {
                    Some(c) => {
                        self.disk.insert(committed.clone(), c);
                        Event::Renamed
                    }
                    None => Event::RenameFailed("missing".to_string()),
                },
                Action::Finish => break,
            };
            task.advance(ev);
            self.observed.push(self.disk.get(&paths.final_path).cloned());
        }
        task.into_outcome().expect("a finished task has an outcome")
    }
}

fn resource(url: &str, h1: &str, h2: &str, compressed: bool) -> ResourceFiles {
    let entries = vec![CatalogEntry {
        file_name: "R.gz".to_string(),
        file_url: url.to_string(),
        checksum_compressed: h1.to_string(),
        checksum_decompressed: h2.to_string(),
        compressed,
    }];
    build_catalog("/res", &entries).unwrap().remove(0)
}

fn body() -> Vec<u8> {
    (0..1000u32).map(|i| (i * 7 % 251) as u8).collect()
}

#[test]
fn end_to_end_two_runs() {
    let mut w = World::new();
    let b = body();
    let h1 = sha256_of_bytes(&b);
    let h2 = sha256_of_bytes(&inflate(&b));
    assert_eq!(inflate(&b).len(), 4000);
    w.server.insert("https://host/R.gz".to_string(), b.clone());
    let res = resource("https://host/R.gz", &h1, &h2, true);
    assert_eq!(res.file_path, "/res/R");

    assert!(w.run("/res", &res).is_ok());
    assert_eq!(w.downloads, 1);
    assert_eq!(w.decompressions, 1);
    assert_eq!(w.disk["/res/R.gz"], b);
    assert_eq!(w.disk["/res/R"], inflate(&b));
    assert!(!w.disk.contains_key("/res/R.gz_unchecked"));
    assert!(!w.disk.contains_key("/res/R_unchecked"));

    w.downloads = 0;
    w.decompressions = 0;
    w.hashes = 0;
    assert!(w.run("/res", &res).is_ok());
    assert_eq!(w.downloads, 0);
    assert_eq!(w.decompressions, 0);
    assert_eq!(w.hashes, 0);
}

#[test]
fn committed_resource_is_not_fetched_again() {
    let mut w = World::new();
    let b = body();
    let h1 = sha256_of_bytes(&b);
    w.disk.insert("/res/R.gz".to_string(), b.clone());
    let res = resource("https://host/R.gz", &h1, "", false);
    assert!(w.run("/res", &res).is_ok());
    assert_eq!((w.downloads, w.hashes), (0, 0));
    assert_eq!(w.disk.len(), 1);
}

#[test]
fn good_staged_file_is_promoted_without_network() {
    let mut w = World::new();
    let b = body();
    let h1 = sha256_of_bytes(&b);
    w.disk.insert("/res/R.gz_unchecked".to_string(), b.clone());
    let res = resource("https://host/R.gz", &h1, "", false);
    assert!(w.run("/res", &res).is_ok());
    assert_eq!(w.downloads, 0);
    assert_eq!(w.disk["/res/R.gz"], b);
    assert!(!w.disk.contains_key("/res/R.gz_unchecked"));
}

#[test]
fn corrupt_staged_file_is_downloaded_again() {
    let mut w = World::new();
    let b = body();
    let h1 = sha256_of_bytes(&b);
    w.disk.insert("/res/R.gz_unchecked".to_string(), vec![1, 2, 3]);
    w.server.insert("https://host/R.gz".to_string(), b.clone());
    let res = resource("https://host/R.gz", &h1, "", false);
    assert!(w.run("/res", &res).is_ok());
    assert_eq!(w.downloads, 1);
    assert_eq!(sha256_of_bytes(&w.disk["/res/R.gz"]), h1);
    assert!(!w.disk.contains_key("/res/R.gz_unchecked"));
}

#[test]
fn empty_digest_commits_without_hashing() {
    let mut w = World::new();
    let b = body();
    w.server.insert("https://host/R.gz".to_string(), b.clone());
    let res = resource("https://host/R.gz", "", "", true);
    assert!(w.run("/res", &res).is_ok());
    assert_eq!(w.hashes, 0);
    assert_eq!(w.disk["/res/R.gz"], b);
    assert_eq!(w.disk["/res/R"], inflate(&b));
}

#[test]
fn downloaded_content_with_wrong_digest_fails_and_is_removed() {
    let mut w = World::new();
    w.server.insert("https://host/R.gz".to_string(), body());
    let wrong = sha256_of_bytes(b"something else");
    let res = resource("https://host/R.gz", &wrong, "", true);
    match w.run("/res", &res) {
        Err(PoleshiftError::DigestMismatch { expected, found }) => {
            assert_eq!(expected, wrong);
            assert_eq!(found, sha256_of_bytes(&body()));
        }
        other => panic!("unexpected {:?}", other),
    }
    assert!(w.disk.is_empty());
    assert_eq!(w.decompressions, 0);
}

#[test]
fn network_failure_fails_the_resource_and_leaves_nothing() {
    let mut w = World::new();
    let res = resource("https://host/missing.gz", "", "", true);
    assert!(matches!(w.run("/res", &res), Err(PoleshiftError::Network(_))));
    assert!(w.disk.is_empty());
}

#[test]
fn final_path_only_ever_holds_verified_content() {
    let mut w = World::new();
    let b = body();
    let h1 = sha256_of_bytes(&b);
    let h2 = sha256_of_bytes(&inflate(&b));
    w.server.insert("https://host/R.gz".to_string(), b.clone());
    w.disk.insert("/res/R_unchecked".to_string(), vec![9; 10]);
    let res = resource("https://host/R.gz", &h1, &h2, true);
    assert!(w.run("/res", &res).is_ok());
    for seen in &w.observed {
        if let Some(c) = seen {
            assert_eq!(sha256_of_bytes(c), h2);
        }
    }
    assert_eq!(w.disk["/res/R"], inflate(&b));
}

#[test]
fn decompression_without_committed_archive_fails() {
    let mut s = Stager::new(ArtifactKind::Decompressed, String::new());
    assert_eq!(s.next_action(), Action::Probe);
    s.advance(Event::Probed { committed: false, staged: false, precursor: false });
    assert_eq!(s.next_action(), Action::Finish);
    assert!(matches!(s.into_outcome(), Some(Err(PoleshiftError::MissingPrecursor))));
}

#[test]
fn unexpected_event_repeats_the_request() {
    let mut s = Stager::new(ArtifactKind::Compressed, "ab".to_string());
    s.advance(Event::Renamed);
    assert_eq!(s.next_action(), Action::Probe);
    assert!(!s.is_done());
}

#[test]
fn rename_failure_is_a_filesystem_error() {
    let mut s = Stager::new(ArtifactKind::Compressed, String::new());
    s.advance(Event::Probed { committed: false, staged: true, precursor: true });
    assert_eq!(s.next_action(), Action::Commit);
    s.advance(Event::RenameFailed("denied".to_string()));
    assert!(s.has_failed());
    match s.into_outcome() {
        Some(Err(PoleshiftError::Filesystem(m))) => assert_eq!(m, "denied"),
        other => panic!("unexpected {:?}", other),
    }
}

#[test]
fn staged_paths_take_the_reserved_suffix() {
    assert_eq!(staged_path("/res/R.gz"), "/res/R.gz_unchecked");
    let res = resource("u", "", "", true);
    let p = paths_of("/res", &res);
    assert_eq!(p.compressed, "/res/R.gz");
    assert_eq!(p.compressed_staged, "/res/R.gz_unchecked");
    assert_eq!(p.final_path, "/res/R");
    assert_eq!(p.final_staged, "/res/R_unchecked");
}

#[test]
fn first_error_in_catalog_order_is_reported() {
    let rs = vec![
        Ok(()),
        Err(PoleshiftError::Network("a".to_string())),
        Err(PoleshiftError::Filesystem("b".to_string())),
    ];
    match first_error(rs) {
        Err(PoleshiftError::Network(m)) => assert_eq!(m, "a"),
        other => panic!("unexpected {:?}", other),
    }
    assert!(first_error(vec![Ok(()), Ok(())]).is_ok());
    assert!(first_error(vec![]).is_ok());
}

#[test]
fn failed_sibling_does_not_undo_committed_work() {
    let mut w = World::new();
    let b = body();
    w.server.insert("https://host/R.gz".to_string(), b.clone());
    let good = resource("https://host/R.gz", "", "", false);
    let bad = resource("https://host/none.gz", "", "", false);
    let r1 = w.run("/res", &good);
    let mut w2 = World::new();
    let r2 = w2.run("/other", &bad);
    assert!(first_error(vec![r1, r2]).is_err());
    assert_eq!(w.disk["/res/R.gz"], b);
}

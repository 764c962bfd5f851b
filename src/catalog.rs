//! The catalog of resources: what to fetch, where each artifact lives, and
//! what its content must hash to.

use vstd::prelude::*;
use vstd::string::*;
use crate::error::PoleshiftError;

verus! {

/// Suffix that turns a committed path into its staged path.
pub const STAGED_SUFFIX: &'static str = "_unchecked";

/// Suffix removed from a compressed file's name to name its decompressed form.
pub const GZ_SUFFIX: &'static str = ".gz";

/// One record of the catalog as it is written down.
#[derive(Debug)]
pub struct CatalogEntry {
    /// Name of the compressed file on the server and on disk.
    pub file_name: String,
    pub file_url: String,
    /// Expected digest of the compressed file; empty to skip the check.
    pub checksum_compressed: String,
    /// Expected digest of the decompressed file; empty to skip the check.
    pub checksum_decompressed: String,
    /// Whether the downloaded file is to be decompressed.
    pub compressed: bool,
}

/// A resource to download, verify and, if asked, decompress.
#[derive(Debug)]
pub struct ResourceFiles {
    /// Name of the compressed file on the server and on disk.
    pub file_name: String,
    /// URL to download from.
    pub file_url: String,
    /// Final (decompressed) local path.
    pub file_path: String,
    /// Expected digest of the compressed file; empty to skip the check.
    pub checksum_compressed: String,
    /// Expected digest of the decompressed file; empty to skip the check.
    pub checksum_decompressed: String,
    /// Whether to decompress after download.
    pub compressed: bool,
}

/// The staged path that belongs to a committed path.
pub open spec fn staged_of(path: Seq<char>) -> Seq<char> {
    path + STAGED_SUFFIX@
}

/// `name` resolved against directory `dir`: an absolute name stands for
/// itself, and a separator is put between the two where `dir` lacks one.
pub open spec fn joined(dir: Seq<char>, name: Seq<char>) -> Seq<char> {
    if dir.len() == 0 || (name.len() > 0 && name[0] == '/') {
        name
    } else if dir.last() == '/' {
        dir + name
    } else {
        dir + seq!['/'] + name
    }
}

pub open spec fn ends_with_gz(s: Seq<char>) -> bool {
    s.len() >= 3 && s[s.len() - 3] == '.' && s[s.len() - 2] == 'g' && s[s.len() - 1] == 'z'
}

/// `s` with every trailing ".gz" removed.
pub open spec fn strip_gz(s: Seq<char>) -> Seq<char>
    decreases s.len(),
{
    if ends_with_gz(s) {
        strip_gz(s.take(s.len() - 3))
    } else {
        s
    }
}

/// Name of the decompressed file of a catalog record.
pub open spec fn decompressed_name(file_name: Seq<char>, compressed: bool) -> Seq<char> {
    if compressed && ends_with_gz(file_name) {
        strip_gz(file_name)
    } else {
        file_name
    }
}

/// Whether `r` is the descriptor of record `e` in directory `dir`.
pub open spec fn describes(r: ResourceFiles, dir: Seq<char>, e: CatalogEntry) -> bool {
    &&& r.file_name@ == e.file_name@
    &&& r.file_url@ == e.file_url@
    &&& r.file_path@ == joined(dir, decompressed_name(e.file_name@, e.compressed))
    &&& r.checksum_compressed@ == e.checksum_compressed@
    &&& r.checksum_decompressed@ == e.checksum_decompressed@
    &&& r.compressed == e.compressed
}

/// The committed path of the compressed artifact of a resource.
pub open spec fn compressed_path_of(dir: Seq<char>, r: ResourceFiles) -> Seq<char> {
    joined(dir, r.file_name@)
}

/// Whether two resources keep off each other's files.
pub open spec fn disjoint(dir: Seq<char>, a: ResourceFiles, b: ResourceFiles) -> bool {
    &&& compressed_path_of(dir, a) != compressed_path_of(dir, b)
    &&& a.file_path@ != b.file_path@
    &&& compressed_path_of(dir, a) != b.file_path@
    &&& a.file_path@ != compressed_path_of(dir, b)
}

/// Whether a resource that is decompressed keeps its two artifacts apart.
pub open spec fn self_consistent(dir: Seq<char>, r: ResourceFiles) -> bool {
    r.compressed ==> compressed_path_of(dir, r) != r.file_path@
}

/// Whether a list of resources can be staged side by side.
pub open spec fn consistent(dir: Seq<char>, rs: Seq<ResourceFiles>) -> bool {
    &&& forall|i: int| 0 <= i < rs.len() ==> self_consistent(dir, #[trigger] rs[i])
    &&& forall|i: int, j: int|
        0 <= i < j < rs.len() ==> disjoint(dir, #[trigger] rs[i], #[trigger] rs[j])
}

/// Consistency depends only on what a description fixes, so when one list
/// of descriptors of some records is inconsistent, every such list is.
proof fn lemma_described_unique(dir: Seq<char>, es: Seq<CatalogEntry>, rs: Seq<ResourceFiles>)
    requires
        rs.len() == es.len(),
        forall|i: int| 0 <= i < rs.len() ==> describes(#[trigger] rs[i], dir, es[i]),
        !consistent(dir, rs),
    ensures
        !(exists|rs2: Seq<ResourceFiles>|
            rs2.len() == es.len() && (forall|i: int|
                0 <= i < rs2.len() ==> describes(#[trigger] rs2[i], dir, es[i])) && consistent(
                dir,
                rs2,
            )),
{
    assert forall|rs2: Seq<ResourceFiles>|
        rs2.len() == es.len() && (forall|i: int|
            0 <= i < rs2.len() ==> describes(#[trigger] rs2[i], dir, es[i])) implies !consistent(
        dir,
        rs2,
    ) by {
        if forall|i: int| 0 <= i < rs.len() ==> self_consistent(dir, #[trigger] rs[i]) {
            let (i, j) = choose|i: int, j: int|
                0 <= i < j < rs.len() && !disjoint(dir, #[trigger] rs[i], #[trigger] rs[j]);
            assert(describes(rs[i], dir, es[i]) && describes(rs2[i], dir, es[i]));
            assert(describes(rs[j], dir, es[j]) && describes(rs2[j], dir, es[j]));
            assert(!disjoint(dir, rs2[i], rs2[j]));
        } else {
            let i = choose|i: int| 0 <= i < rs.len() && !self_consistent(dir, #[trigger] rs[i]);
            assert(describes(rs[i], dir, es[i]) && describes(rs2[i], dir, es[i]));
            assert(!self_consistent(dir, rs2[i]));
        }
    }
}

/// One record of the built-in catalog: a gzip archive named after its file,
/// fetched from the classifier's download host, no digests given.
pub open spec fn builtin_entry(e: CatalogEntry, name: Seq<char>, url: Seq<char>) -> bool {
    &&& e.file_name@ == name
    &&& e.file_url@ == url
    &&& e.checksum_compressed@.len() == 0
    &&& e.checksum_decompressed@.len() == 0
    &&& e.compressed
}

fn builtin(name: &str, url: &str) -> (e: CatalogEntry)
    ensures
        builtin_entry(e, name@, url@),
{
    CatalogEntry {
        file_name: String::from_str(name),
        file_url: String::from_str(url),
        checksum_compressed: String::new(),
        checksum_decompressed: String::new(),
        compressed: true,
    }
}

/// The classifier's four database files, for use when no catalog file is
/// supplied. No digests are known for them, so they are taken unchecked.
pub fn builtin_catalog() -> (r: Vec<CatalogEntry>)
    ensures
        r@.len() == 4,
        builtin_entry(r@[0], "database.kdb.gz"@, "https://example.com/database.kdb.gz"@),
        builtin_entry(
            r@[1],
            "database.kdb.counts.gz"@,
            "https://example.com/database.kdb.counts.gz"@,
        ),
        builtin_entry(r@[2], "database.idx.gz"@, "https://example.com/database.idx.gz"@),
        builtin_entry(r@[3], "taxDB.gz"@, "https://example.com/taxDB.gz"@),
{
    let mut r: Vec<CatalogEntry> = Vec::new();
    r.push(builtin("database.kdb.gz", "https://example.com/database.kdb.gz"));
    r.push(builtin("database.kdb.counts.gz", "https://example.com/database.kdb.counts.gz"));
    r.push(builtin("database.idx.gz", "https://example.com/database.idx.gz"));
    r.push(builtin("taxDB.gz", "https://example.com/taxDB.gz"));
    r
}

/// The staged path that belongs to a committed path.
pub fn staged_path(path: &str) -> (r: String)
    ensures
        r@ == staged_of(path@),
{
    String::from_str(path).concat(STAGED_SUFFIX)
}

/// Resolves `name` against directory `dir`.
pub fn join_path(dir: &str, name: &str) -> (r: String)
    ensures
        r@ == joined(dir@, name@),
{
    let dn = dir.unicode_len();
    let nn = name.unicode_len();
    if dn == 0 || (nn > 0 && name.get_char(0) == '/') {
        String::from_str(name)
    } else if dir.get_char(dn - 1) == '/' {
        String::from_str(dir).concat(name)
    } else {
        let r = String::from_str(dir).concat("/").concat(name);
        proof {
            reveal_strlit("/");
            assert(r@ =~= dir@ + seq!['/'] + name@);
        }
        r
    }
}

fn has_gz_suffix(s: &str) -> (r: bool)
    ensures
        r == ends_with_gz(s@),
{
    let n = s.unicode_len();
    n >= 3 && s.get_char(n - 3) == '.' && s.get_char(n - 2) == 'g' && s.get_char(n - 1) == 'z'
}

/// The decompressed file's name: for a compressed record, its name without
/// trailing ".gz" suffixes.
pub fn decompressed_file_name(file_name: &str, compressed: bool) -> (r: String)
    ensures
        r@ == decompressed_name(file_name@, compressed),
{
    if !compressed || !has_gz_suffix(file_name) {
        return String::from_str(file_name);
    }
    let mut cur: &str = file_name;
    while has_gz_suffix(cur)
        invariant
            strip_gz(cur@) == strip_gz(file_name@),
        decreases cur@.len(),
    {
        let n = cur.unicode_len();
        cur = cur.substring_char(0, n - 3);
    }
    String::from_str(cur)
}

/// The descriptor of one catalog record, its files under `resource_dir`.
pub fn descriptor_of(resource_dir: &str, e: &CatalogEntry) -> (r: ResourceFiles)
    ensures
        describes(r, resource_dir@, *e),
{
    let name = decompressed_file_name(e.file_name.as_str(), e.compressed);
    ResourceFiles {
        file_name: e.file_name.clone(),
        file_url: e.file_url.clone(),
        file_path: join_path(resource_dir, name.as_str()),
        checksum_compressed: e.checksum_compressed.clone(),
        checksum_decompressed: e.checksum_decompressed.clone(),
        compressed: e.compressed,
    }
}

/// The committed path of a resource's compressed artifact.
pub fn compressed_path(resource_dir: &str, r: &ResourceFiles) -> (p: String)
    ensures
        p@ == compressed_path_of(resource_dir@, *r),
{
    join_path(resource_dir, r.file_name.as_str())
}

fn str_eq(a: &String, b: &String) -> (r: bool)
    ensures
        r == (a@ == b@),
{
    *a == *b
}

fn disjoint_check(resource_dir: &str, a: &ResourceFiles, b: &ResourceFiles) -> (r: bool)
    ensures
        r == disjoint(resource_dir@, *a, *b),
{
    let ca = compressed_path(resource_dir, a);
    let cb = compressed_path(resource_dir, b);
    !str_eq(&ca, &cb) && !str_eq(&a.file_path, &b.file_path) && !str_eq(&ca, &b.file_path)
        && !str_eq(&a.file_path, &cb)
}

/// Turns the records of a catalog into descriptors of resources under
/// `resource_dir`. Records whose files would overlap (two resources on one
/// path, or a decompressed file on its own archive) make the catalog
/// unusable.
pub fn build_catalog(resource_dir: &str, entries: &Vec<CatalogEntry>) -> (r: Result<
    Vec<ResourceFiles>,
    PoleshiftError,
>)
    ensures
        match r {
            Ok(rs) => {
                &&& rs@.len() == entries@.len()
                &&& forall|i: int|
                    0 <= i < rs@.len() ==> describes(#[trigger] rs@[i], resource_dir@, entries@[i])
                &&& consistent(resource_dir@, rs@)
            },
            Err(e) => (e is Configuration) && !(exists|rs: Seq<ResourceFiles>|
                rs.len() == entries@.len() && (forall|i: int|
                    0 <= i < rs.len() ==> describes(#[trigger] rs[i], resource_dir@, entries@[i]))
                    && consistent(resource_dir@, rs)),
        },
{
    let mut rs: Vec<ResourceFiles> = Vec::new();
    let n = entries.len();
    let mut i: usize = 0;
    while i < n
        invariant
            n == entries@.len(),
            i <= n,
            rs@.len() == i,
            forall|k: int| 0 <= k < i ==> describes(#[trigger] rs@[k], resource_dir@, entries@[k]),
        decreases n - i,
    {
        rs.push(descriptor_of(resource_dir, &entries[i]));
        i = i + 1;
    }
    let mut i: usize = 0;
    while i < n
        invariant
            n == rs@.len(),
            n == entries@.len(),
            forall|k: int| 0 <= k < n ==> describes(#[trigger] rs@[k], resource_dir@, entries@[k]),
            i <= n,
            forall|k: int| 0 <= k < i ==> self_consistent(resource_dir@, #[trigger] rs@[k]),
            forall|a: int, b: int|
                0 <= a < b < n && a < i ==> disjoint(resource_dir@, #[trigger] rs@[a], #[trigger] rs@[b]),
        decreases n - i,
    {
        if rs[i].compressed {
            let c = compressed_path(resource_dir, &rs[i]);
            if str_eq(&c, &rs[i].file_path) {
                proof {
                    assert(!self_consistent(resource_dir@, rs@[i as int]));
                    lemma_described_unique(resource_dir@, entries@, rs@);
                }
                return Err(PoleshiftError::Configuration(String::from_str("a decompressed file would replace its own archive")));
            }
        }
        let mut j: usize = i + 1;
        while j < n
            invariant
                n == rs@.len(),
                n == entries@.len(),
                forall|k: int| 0 <= k < n ==> describes(#[trigger] rs@[k], resource_dir@, entries@[k]),
                i < j <= n,
                forall|b: int| i < b < j ==> disjoint(resource_dir@, rs@[i as int], #[trigger] rs@[b]),
            decreases n - j,
        {
            if !disjoint_check(resource_dir, &rs[i], &rs[j]) {
                proof {
                    assert(!disjoint(resource_dir@, rs@[i as int], rs@[j as int]));
                    lemma_described_unique(resource_dir@, entries@, rs@);
                }
                return Err(PoleshiftError::Configuration(String::from_str("two resources share a file")));
            }
            j = j + 1;
        }
        i = i + 1;
    }
    Ok(rs)
}

} // verus!

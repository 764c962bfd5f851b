//! The classifier database kept on the desktop.

use vstd::prelude::*;

verus! {

/// Keeps the classifier database in place.
pub struct DbManager;

impl DbManager {
    /// Whether the database found at its path can be used as it is: it
    /// exists, is a directory, and its metadata can be read.
    pub fn verify_database(exists: bool, is_dir: bool, metadata_ok: bool) -> (r: bool)
        ensures
            r == (exists && is_dir && metadata_ok),
    {
        if !exists {
            return false;
        }
        if !is_dir {
            return false;
        }
        metadata_ok
    }
}

} // verus!

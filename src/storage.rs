//! Where received files are stored: a fixed base directory, under which each
//! accepted file gets a fresh target named by the ledger.

use vstd::prelude::*;

verus! {

/// The storage configuration shared by all sessions: its base directory.
#[derive(Clone)]
pub struct FileStorage {
    base_directory: String,
}

impl FileStorage {
    pub closed spec fn base(&self) -> Seq<char> {
        self.base_directory@
    }

    pub fn new(base_directory: String) -> (r: FileStorage)
        ensures
            r.base() == base_directory@,
    {
        FileStorage { base_directory }
    }

    pub fn base_directory(&self) -> (r: &str)
        ensures
            r@ == self.base(),
    {
        self.base_directory.as_str()
    }
}

} // verus!

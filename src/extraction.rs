use vstd::prelude::*;
use crate::tree::{ExtractedEntry, ExtractedFile};

verus! {

/// The response of one extraction: the file tree and the store's keys.
pub struct ExtractionResult {
    pub root: Vec<ExtractedEntry>,
    pub db_keys: Vec<ExtractedFile>,
}

impl ExtractionResult {
    pub fn new(root: Vec<ExtractedEntry>, db_keys: Vec<ExtractedFile>) -> (r: Self)
        ensures
            r.root == root,
            r.db_keys == db_keys,
    {
        ExtractionResult { root, db_keys }
    }
}

} // verus!

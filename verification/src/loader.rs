//! The synchronous JSON asset loader's configuration. Reading and parsing
//! files is the driver's work; the loader here only fixes where assets are
//! looked up.

use vstd::prelude::*;

verus! {

/// Loads assets synchronously from JSON files under a base directory.
#[derive(Debug, Clone)]
pub struct JsonSyncLoader {
    pub base_path: String,
}

impl JsonSyncLoader {
    pub fn new(base_path: String) -> (l: JsonSyncLoader)
        ensures
            l.base_path@ == base_path@,
    {
        JsonSyncLoader { base_path }
    }
}

} // verus!

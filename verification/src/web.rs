//! The server flavour's small pieces: its configuration path and the
//! shape of an indexing request.

use vstd::prelude::*;

verus! {

/// Path of the configuration file next to the server's working
/// directory.
pub fn config_path() -> (r: String)
    ensures
        r@ == "config.json"@,
{
    String::from_str("config.json")
}

/// A request to rebuild the index: the chart folder to walk and an
/// optional cap on how many files to process.
#[derive(Debug)]
pub struct IndexRequest {
    pub songs_path: String,
    pub limit: Option<usize>,
}

} // verus!

//! Direct backend: a session that addresses a local server installation
//! by its home directory instead of a network endpoint.

use vstd::prelude::*;

verus! {

/// Result set shape of the direct backend.
#[allow(dead_code)]
pub struct DirectDataSet {
    session: DirectSession,
}

/// Session bound to a local server installation.
pub struct DirectSession {
    pub iotdb_home_directory: String,
}

impl DirectSession {
    /// A session rooted at the given server home directory.
    pub fn new(iotdb_home: &str) -> (r: Self)
        ensures
            r.iotdb_home_directory@ == iotdb_home@,
    {
        Self { iotdb_home_directory: iotdb_home.to_owned() }
    }
}

} // verus!

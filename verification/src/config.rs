//! The configuration of a run.

use crate::names::{collected, pairs_of, NameTable};
use vstd::prelude::*;

verus! {

/// How to reach the hosting service, and the projects to synchronise.
#[derive(Clone, Debug, PartialEq, Eq)]
pub struct Config {
    /// The service's host name.
    pub host: String,
    /// The access token.
    pub token: String,
    /// The branch to follow, by project name.
    pub archives: NameTable,
}

impl Config {
    /// The invariant: no project is named twice.
    pub open spec fn wf(&self) -> bool {
        self.archives.wf()
    }

    /// The configuration with the given projects, each a name and its
    /// branch. Where a name comes twice, its last branch counts.
    pub fn new(host: String, token: String, archives: Vec<(String, String)>) -> (r: Config)
        ensures
            r.wf(),
            r.host == host,
            r.token == token,
            r.archives@ == collected(pairs_of(archives@)),
    {
        Config { host, token, archives: NameTable::from_entries(archives) }
    }
}

} // verus!

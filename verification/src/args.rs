//! What the command line says, as plain values.

use crate::cmd::get::Flags;
use vstd::prelude::*;
use vstd::string::StringExecFns;

verus! {

/// The options of one invocation.
#[derive(Clone, Debug, PartialEq, Eq)]
pub struct Opts {
    /// The configuration file: the projects and how to reach the service.
    pub config: String,
    /// More detailed output.
    pub verbose: bool,
    pub subcmd: SubCommand,
}

/// The operation that was asked for.
#[derive(Clone, Debug, PartialEq, Eq)]
pub enum SubCommand {
    Get(Get),
    Print(Print),
}

/// Fetch and extract the archives.
#[derive(Clone, Debug, PartialEq, Eq)]
pub struct Get {
    /// How many leading path components of every archive member are dropped.
    pub strip: u8,
    /// The destination directory.
    pub dir: String,
    /// Leave a project alone whose directory already exists. Without `keep`
    /// and `update` the destination directory is removed first.
    pub keep: bool,
    /// Refresh, going by the lock file.
    pub update: bool,
}

/// Print the last commit of every project.
#[derive(Clone, Copy, Debug, PartialEq, Eq, Structural)]
pub struct Print {}

impl Get {
    /// The modes that bear on each project.
    pub fn flags(&self) -> (r: Flags)
        ensures
            r == (Flags { keep: self.keep, update: self.update }),
    {
        Flags { keep: self.keep, update: self.update }
    }
}

impl Default for Get {
    /// Nothing stripped, the directory `tmp`, neither mode set.
    fn default() -> (r: Get)
        ensures
            r.strip == 0,
            r.dir@ == "tmp"@,
            !r.keep,
            !r.update,
    {
        Get { strip: 0, dir: String::from_str("tmp"), keep: false, update: false }
    }
}

} // verus!

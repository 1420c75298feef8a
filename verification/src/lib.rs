//! Incremental synchronisation of project archives into a local workspace.
//!
//! The crate holds the decisions of a run: which projects need a fresh
//! archive, what happens to the destination directory, where each archive
//! member lands, and what the lock file records. It touches neither the file
//! system nor the network: the caller performs the operations that the
//! returned actions name and reports back what happened.
//!
//! - `names`: the order of project names, and tables keyed by name;
//! - `paths`: prefix stripping of member paths, directory names of projects;
//! - `utils`: resolved projects, the lock file, the destination directory;
//! - `cmd`: the `get` and `print` operations;
//! - `args`, `config`: the command line and the configuration as plain values;
//! - `yaml`: what is taken on trust of the YAML reader and writer, and the
//!   test that a document passes before it is read.

pub mod args;
pub mod cmd;
pub mod config;
pub mod names;
pub mod paths;
pub mod utils;
pub mod yaml;

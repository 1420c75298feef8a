//! The two operations: `get` fetches and extracts, `print` only resolves.

pub mod get;
pub mod print;

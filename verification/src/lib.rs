//! Snapshots of the statistics of one repository, one dated file per data
//! point.
//!
//! The library reads the command line, names the API paths to ask, parses the
//! timestamps of what comes back, names the file of every data point and keeps
//! the account of what is written. Fetching and writing are left to the caller.

pub mod cli;
pub mod command;
pub mod github;
pub mod iso8601date;
pub mod text;
pub mod writer;
